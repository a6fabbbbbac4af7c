//! What the execution of a run's models promises: which model starts next,
//! what a success frees, what a failure holds up, and how models end that were
//! never executed.

use vstd::prelude::*;

use crate::events::ExecutionStatus;
use crate::failure::FailureCategory;
use crate::run::ModelResultView;
use crate::schedule::{
    after_completion, below, blocked_below, blocked_by_seed, blocked_result, closed, closed_upto,
    concluded, executed, filled, first_pending, fresh, if_done, if_ready, journaled, landed,
    left_over, lemma_blocked_along, lemma_blocked_below, lemma_closed_upto,
    lemma_conclude_unsatisfied, lemma_first_pending, lemma_landed, lemma_none_waiting,
    lemma_open_models, lemma_satisfy, lemma_walk_complete, next_start, open_models, reads_of,
    satisfied_with, settled, unexecuted, waiting, waiting_upto, walk, CompletionView, ExecutionView,
};
use crate::seqs::{gather, lemma_gather_member};

verus! {

/// A node is done once it passed, failed, was skipped, reused, blocked or
/// cancelled; its data are available where it passed or was skipped or reused.
pub proof fn law_statuses_mean_what_they_say(status: ExecutionStatus)
    ensures
        !status.terminal() <==> status == ExecutionStatus::Pending || status
            == ExecutionStatus::Ready || status == ExecutionStatus::Running,
        status.satisfied() <==> status == ExecutionStatus::Passed || status
            == ExecutionStatus::Skipped || status == ExecutionStatus::Cached,
        status == ExecutionStatus::Failed || status == ExecutionStatus::Blocked || status
            == ExecutionStatus::Cancelled ==> status.terminal() && !status.satisfied(),
{
}

/// Whether a model reads another.
pub open spec fn reads(v: ExecutionView, reader: int, read: int) -> bool {
    0 <= read < v.children.len() && v.children[read].contains(reader as usize)
}

/// Whether every model that a model reads is satisfied.
pub open spec fn unhindered(v: ExecutionView, j: int) -> bool {
    forall|i: int|
        0 <= i < v.children.len() && #[trigger] reads(v, j, i) ==> v.status[i].satisfied()
}

proof fn lemma_times_absent(list: Seq<usize>, j: int)
    requires
        0 <= j <= usize::MAX,
        !list.contains(j as usize),
    ensures
        crate::schedule::times(list, j) == 0,
    decreases list.len(),
{
    if list.len() > 0 {
        let rest = list.drop_last();
        assert forall|k: int| 0 <= k < rest.len() implies rest[k] != j as usize by {
            assert(list[k] == rest[k]);
            assert(list.contains(list[k]));
        }
        lemma_times_absent(rest, j);
        assert(list.last() != j as usize) by {
            assert(list.contains(list[list.len() - 1]));
        }
    }
}

proof fn lemma_nothing_waits(v: ExecutionView, j: int, k: nat)
    requires
        v.shaped(),
        0 <= j < v.blanks.len(),
        k <= v.status.len(),
        unhindered(v, j),
    ensures
        waiting_upto(v.children, v.status, j, k) == 0,
    decreases k,
{
    if k > 0 {
        lemma_nothing_waits(v, j, (k - 1) as nat);
        if !v.status[k - 1].satisfied() {
            assert(!reads(v, j, k - 1));
            lemma_times_absent(v.children[k - 1], j);
        }
    }
}

/// A model waits for nobody exactly where every model that it reads is
/// satisfied.
pub proof fn law_models_wait_for_what_they_read(v: ExecutionView, j: int)
    requires
        v.sound(),
        0 <= j < v.blanks.len(),
    ensures
        v.remaining[j] == 0 <==> unhindered(v, j),
{
    assert(v.remaining[j] == waiting(v.children, v.status, j));
    if v.remaining[j] == 0 {
        assert forall|i: int|
            0 <= i < v.children.len() && #[trigger] reads(
                v,
                j,
                i,
            ) implies v.status[i].satisfied() by {
            lemma_none_waiting(v.children, v.status, i, j as usize);
        }
    }
    if unhindered(v, j) {
        lemma_nothing_waits(v, j, v.status.len());
    }
}

/// A model that starts was ready, pending and unhindered, in a run that goes
/// on and has room, and no ready model before it was pending; it is then
/// running, and nothing else changes.
pub proof fn law_the_first_ready_model_starts(v: ExecutionView)
    requires
        v.sound(),
    ensures
        next_start(v).0 matches Some(i) ==> {
            &&& !v.cancelled && !v.failed_fast
            &&& v.inflight < v.limit
            &&& i < v.blanks.len()
            &&& v.status[i as int] == ExecutionStatus::Pending
            &&& unhindered(v, i as int)
            &&& exists|k: int|
                0 <= k < v.ready.len() && #[trigger] v.ready[k] == i && forall|m: int|
                    0 <= m < k ==> v.status[(#[trigger] v.ready[m]) as int]
                        != ExecutionStatus::Pending
            &&& next_start(v).1.status == v.status.update(i as int, ExecutionStatus::Running)
            &&& next_start(v).1.inflight == v.inflight + 1
            &&& next_start(v).1.results == v.results
            &&& next_start(v).1.remaining == v.remaining
            &&& next_start(v).1.journal == v.journal
        },
        next_start(v).0 is None <==> v.cancelled || v.failed_fast || v.inflight >= v.limit || (
        forall|k: int|
            0 <= k < v.ready.len() ==> v.status[(#[trigger] v.ready[k]) as int]
                != ExecutionStatus::Pending),
{
    lemma_first_pending(v, 0);
    lemma_pending_order(v, 0);
    let k = first_pending(v, 0);
    if k < v.ready.len() {
        let i = v.ready[k];
        assert(v.remaining[v.ready[k] as int] == 0);
        law_models_wait_for_what_they_read(v, i as int);
        assert(v.ready[k] == i);
    }
}

proof fn lemma_pending_order(v: ExecutionView, k: int)
    requires
        0 <= k <= v.ready.len(),
    ensures
        forall|m: int|
            k <= m < first_pending(v, k) ==> v.status[(#[trigger] v.ready[m]) as int]
                != ExecutionStatus::Pending,
    decreases v.ready.len() - k,
{
    if k < v.ready.len() && v.status[v.ready[k] as int] != ExecutionStatus::Pending {
        lemma_pending_order(v, k + 1);
    }
}

/// Once a run's models are set up, exactly the pending models that read
/// nothing unsatisfied are ready.
pub proof fn law_unhindered_models_are_ready(v: ExecutionView, j: usize)
    requires
        v.sound(),
        j < v.blanks.len(),
    ensures
        filled(v).ready.contains(j) <==> v.status[j as int] == ExecutionStatus::Pending
            && unhindered(v, j as int),
        filled(v).status == v.status,
        filled(v).results == v.results,
{
    law_models_wait_for_what_they_read(v, j as int);
    let all = Seq::new(v.blanks.len(), |i: int| i as usize);
    let f = if_ready(v);
    lemma_gather_member(all, f, j);
    if v.status[j as int] == ExecutionStatus::Pending && unhindered(v, j as int) {
        assert(all[j as int] == j);
        assert(f(all[j as int])[0] == j);
        assert(f(all[j as int]).contains(j));
    }
}

/// A model passes exactly where its last attempt failed with nothing; a failed
/// one keeps its failure and claims neither a query nor an output.
pub proof fn law_models_pass_without_a_failure(blank: ModelResultView, end: CompletionView)
    ensures
        executed(blank, end).status == ExecutionStatus::Passed <==> end.failure is None,
        executed(blank, end).status == ExecutionStatus::Failed <==> end.failure is Some,
        executed(blank, end).failure == end.failure,
        executed(blank, end).attempts == end.attempts,
        executed(blank, end).query_id is Some ==> end.failure is None
            && executed(blank, end).query_id == end.query_id,
        executed(blank, end).output_identity is Some ==> end.failure is None
            && executed(blank, end).output_identity == end.output_identity,
        end.failure is None ==> executed(blank, end).query_id == end.query_id
            && executed(blank, end).output_identity == end.output_identity,
        executed(blank, end).started_at == Some(end.started_at),
        executed(blank, end).finished_at == Some(end.finished_at),
        executed(blank, end).duration_ms == end.duration_ms,
        executed(blank, end).model == blank.model,
        executed(blank, end).desired_version == blank.desired_version,
{
}

/// A model that passes frees its readers: in a run that goes on, those that
/// wait for nobody any more become ready, and no others do; no other model
/// changes.
pub proof fn law_success_frees_readers(
    v: ExecutionView,
    i: usize,
    end: CompletionView,
    now: Seq<char>,
    c: usize,
)
    requires
        v.sound(),
        i < v.blanks.len(),
        v.status[i as int] == ExecutionStatus::Running,
        end.failure is None,
        c < v.blanks.len(),
    ensures
        ({
            let w = after_completion(v, i, end, now);
            &&& w.status == v.status.update(i as int, ExecutionStatus::Passed)
            &&& w.results == v.results.update(i as int, Some(executed(v.blanks[i as int], end)))
            &&& w.inflight == v.inflight - 1
            &&& w.journal == v.journal.push(i)
            &&& w.cancelled == v.cancelled && w.failed_fast == v.failed_fast
            &&& w.ready.contains(c) <==> v.ready.contains(c) || (!v.cancelled && !v.failed_fast
                && reads(v, c as int, i as int) && w.status[c as int] == ExecutionStatus::Pending
                && unhindered(w, c as int))
        }),
{
    lemma_landed(v, i as int);
    let down = landed(v, i as int);
    let result = executed(v.blanks[i as int], end);
    lemma_satisfy(down, i as int, result);
    let s = satisfied_with(down, i as int, result);
    let j = journaled(s, i);
    assert(j.sound());
    let w = after_completion(v, i, end, now);
    assert(w.status =~= v.status.update(i as int, ExecutionStatus::Passed));
    law_models_wait_for_what_they_read(j, c as int);
    assert(unhindered(w, c as int) == unhindered(j, c as int)) by {
        assert(w.children == j.children && w.status == j.status);
        if unhindered(j, c as int) {
            assert forall|m: int|
                0 <= m < w.children.len() && #[trigger] reads(
                    w,
                    c as int,
                    m,
                ) implies w.status[m].satisfied() by {
                assert(reads(j, c as int, m));
            }
        }
        if unhindered(w, c as int) {
            assert forall|m: int|
                0 <= m < j.children.len() && #[trigger] reads(
                    j,
                    c as int,
                    m,
                ) implies j.status[m].satisfied() by {
                assert(reads(w, c as int, m));
            }
        }
    }
    let list = v.children[i as int];
    let f = if_ready(j);
    lemma_gather_member(list, f, c);
    if list.contains(c) && j.remaining[c as int] == 0 && j.status[c as int]
        == ExecutionStatus::Pending {
        let k = choose|k: int| 0 <= k < list.len() && list[k] == c;
        assert(f(list[k])[0] == c);
        assert(f(list[k]).contains(c));
    }
    if gather(list, f).contains(c) {
        let k = choose|k: int| 0 <= k < list.len() && f(#[trigger] list[k]).contains(c);
        assert(list[k] == c);
        assert(list.contains(list[k]));
    }
    let more = gather(list, f);
    assert((v.ready + more).contains(c) <==> v.ready.contains(c) || more.contains(c)) by {
        if v.ready.contains(c) {
            let k = choose|k: int| 0 <= k < v.ready.len() && v.ready[k] == c;
            assert((v.ready + more)[k] == c);
        }
        if more.contains(c) {
            let k = choose|k: int| 0 <= k < more.len() && more[k] == c;
            assert((v.ready + more)[v.ready.len() + k] == c);
        }
    }
}

proof fn lemma_walk_closed(
    children: Seq<Seq<usize>>,
    open: Set<int>,
    stack: Seq<(usize, usize)>,
    k: int,
    c: usize,
)
    requires
        open.finite(),
        0 <= k < walk(children, open, stack).len(),
        children[walk(children, open, stack)[k].1 as int].contains(c),
        open.contains(c as int),
    ensures
        exists|m: int|
            0 <= m < walk(children, open, stack).len() && (#[trigger] walk(
                children,
                open,
                stack,
            )[m]).1 == c,
    decreases open.len(), stack.len(),
{
    let whole = walk(children, open, stack);
    let (p, d) = stack[0];
    let rest = stack.drop_first();
    if open.contains(d as int) {
        let less = open.remove(d as int);
        let next = below(children, d) + rest;
        let tail = walk(children, less, next);
        assert(whole == seq![(p, d)] + tail);
        if c == d {
            assert(whole[0].1 == c);
        } else {
            assert(less.contains(c as int));
            if k == 0 {
                let list = children[d as int];
                let at = choose|at: int| 0 <= at < list.len() && list[at] == c;
                assert(next[at].1 == c);
                lemma_walk_complete(children, less, next, c);
            } else {
                assert(whole[k] == tail[k - 1]);
                lemma_walk_closed(children, less, next, k - 1, c);
            }
            let m = choose|m: int| 0 <= m < tail.len() && (#[trigger] tail[m]).1 == c;
            assert(whole[m + 1] == tail[m]);
        }
    } else {
        lemma_walk_closed(children, open, rest, k, c);
    }
}

/// A failure holds up everything below it and nothing else: a model that is
/// not done is blocked where it reads the failed model or one that is blocked
/// with it, and every model that is blocked reads one of these; what was done
/// stays as it was.
pub proof fn law_failures_hold_up_what_is_below(
    v: ExecutionView,
    i: usize,
    now: Seq<char>,
    c: usize,
)
    requires
        v.sound(),
        i < v.blanks.len(),
        v.status[i as int].terminal(),
        !v.status[i as int].satisfied(),
        c < v.blanks.len(),
    ensures
        ({
            let w = blocked_below(v, i, now);
            &&& v.status[c as int].terminal() ==> w.status[c as int] == v.status[c as int]
            &&& !v.status[c as int].terminal() && reads(v, c as int, i as int)
                ==> w.status[c as int] == ExecutionStatus::Blocked
            &&& !v.status[c as int].terminal() && (exists|d: int|
                0 <= d < v.blanks.len() && w.status[d] != v.status[d] && #[trigger] reads(
                    v,
                    c as int,
                    d,
                )) ==> w.status[c as int] == ExecutionStatus::Blocked
            &&& w.status[c as int] != v.status[c as int] ==> w.status[c as int]
                == ExecutionStatus::Blocked && exists|d: int|
                0 <= d < v.blanks.len() && !v.status[d].satisfied() && !w.status[d].satisfied()
                    && #[trigger] reads(v, c as int, d)
            &&& w.inflight == v.inflight && w.ready == v.ready
        }),
{
    let open = open_models(v.status);
    let stack = below(v.children, i);
    let edges = walk(v.children, open, stack);
    lemma_open_models(v.status);
    lemma_blocked_below(v, i, now);
    lemma_blocked_along(v, edges, now);
    let w = blocked_below(v, i, now);
    assert(w.status[c as int] == if (exists|k: int|
        0 <= k < edges.len() && (#[trigger] edges[k]).1 == c as int) {
        ExecutionStatus::Blocked
    } else {
        v.status[c as int]
    });
    if !v.status[c as int].terminal() {
        if reads(v, c as int, i as int) {
            let list = v.children[i as int];
            let k = choose|k: int| 0 <= k < list.len() && list[k] == c;
            assert(stack[k].1 == c);
            lemma_walk_complete(v.children, open, stack, c);
            let m = choose|m: int| 0 <= m < edges.len() && (#[trigger] edges[m]).1 == c;
            assert(edges[m].1 == c as int);
        }
        if exists|d: int|
            0 <= d < v.blanks.len() && w.status[d] != v.status[d] && #[trigger] reads(
                v,
                c as int,
                d,
            ) {
            let d = choose|d: int|
                0 <= d < v.blanks.len() && w.status[d] != v.status[d] && #[trigger] reads(
                    v,
                    c as int,
                    d,
                );
            assert(w.status[d] == if (exists|k: int|
                0 <= k < edges.len() && (#[trigger] edges[k]).1 == d) {
                ExecutionStatus::Blocked
            } else {
                v.status[d]
            });
            let k = choose|k: int| 0 <= k < edges.len() && (#[trigger] edges[k]).1 == d;
            lemma_walk_closed(v.children, open, stack, k, c);
            let m = choose|m: int| 0 <= m < edges.len() && (#[trigger] edges[m]).1 == c;
            assert(edges[m].1 == c as int);
        }
    }
    if w.status[c as int] != v.status[c as int] {
        let k = choose|k: int| 0 <= k < edges.len() && (#[trigger] edges[k]).1 == c as int;
        let d = edges[k].0 as int;
        assert(w.status[d] == if (exists|k: int|
            0 <= k < edges.len() && (#[trigger] edges[k]).1 == d) {
            ExecutionStatus::Blocked
        } else {
            v.status[d]
        });
        assert(reads(v, c as int, d));
    }
    if v.status[c as int].terminal() && exists|k: int|
        0 <= k < edges.len() && (#[trigger] edges[k]).1 == c as int {
        let k = choose|k: int| 0 <= k < edges.len() && (#[trigger] edges[k]).1 == c as int;
        assert(!v.status[edges[k].1 as int].terminal());
    }
}

/// A failed model is failed, blocks what is below it, and stops the run
/// exactly where it is to fail fast: nothing is ready any more then.
pub proof fn law_failures_stop_fail_fast_runs(
    v: ExecutionView,
    i: usize,
    end: CompletionView,
    now: Seq<char>,
    c: usize,
)
    requires
        v.sound(),
        i < v.blanks.len(),
        v.status[i as int] == ExecutionStatus::Running,
        end.failure is Some,
        c < v.blanks.len(),
    ensures
        ({
            let w = after_completion(v, i, end, now);
            &&& w.status[i as int] == ExecutionStatus::Failed
            &&& w.failed_fast <==> v.failed_fast || v.fail_fast
            &&& w.cancelled == v.cancelled
            &&& v.fail_fast ==> w.ready.len() == 0
            &&& !v.fail_fast ==> w.ready == v.ready
            &&& w.inflight == v.inflight - 1
            &&& c != i && reads(v, c as int, i as int) && !v.status[c as int].terminal()
                ==> w.status[c as int] == ExecutionStatus::Blocked
            &&& c != i && v.status[c as int].terminal() ==> w.status[c as int]
                == v.status[c as int]
            &&& c != i ==> w.status[c as int] == v.status[c as int] || w.status[c as int]
                == ExecutionStatus::Blocked
        }),
{
    lemma_landed(v, i as int);
    let down = landed(v, i as int);
    let result = executed(v.blanks[i as int], end);
    lemma_conclude_unsatisfied(down, i as int, result);
    let failed = journaled(concluded(down, i as int, result), i);
    assert(failed.sound());
    law_failures_hold_up_what_is_below(failed, i, now, c);
    law_failures_hold_up_what_is_below(failed, i, now, i);
    let edges = walk(failed.children, open_models(failed.status), below(failed.children, i));
    lemma_blocked_below(failed, i, now);
    lemma_blocked_along(failed, edges, now);
    if c != i {
        assert(failed.status[c as int] == v.status[c as int]);
        assert(reads(failed, c as int, i as int) == reads(v, c as int, i as int));
    }
}

/// A model that a failure holds up is recorded as blocked for a dependency,
/// with no attempt of its own.
pub proof fn law_held_up_models_are_recorded_as_blocked(
    v: ExecutionView,
    edge: (usize, usize),
    now: Seq<char>,
)
    ensures
        ({
            let result = blocked_result(v, edge, now);
            &&& result.status == ExecutionStatus::Blocked
            &&& result.model == v.blanks[edge.1 as int].model
            &&& result.attempts == v.blanks[edge.1 as int].attempts
            &&& result.failure matches Some(failure) && failure.category
                == FailureCategory::Dependency && !failure.retryable
        }),
{
}

/// What is left when a run closes was never executed: it is cancelled where
/// the run was stopped and blocked where it was not, and everything that was
/// done stays as it was.
pub proof fn law_stopped_runs_cancel_what_is_left(v: ExecutionView, now: Seq<char>, i: int)
    requires
        v.sound(),
        0 <= i < v.blanks.len(),
    ensures
        ({
            let w = closed(v, now);
            &&& v.status[i].terminal() ==> w.status[i] == v.status[i] && w.results[i]
                == v.results[i]
            &&& !v.status[i].terminal() ==> w.status[i] == (if v.cancelled || v.failed_fast {
                ExecutionStatus::Cancelled
            } else {
                ExecutionStatus::Blocked
            })
            &&& !v.status[i].terminal() ==> w.results[i] is Some && w.results[i]->0.status
                == w.status[i] && w.results[i]->0.failure is Some
                && w.results[i]->0.failure->0.category == (if v.cancelled || v.failed_fast {
                FailureCategory::Cancelled
            } else {
                FailureCategory::Dependency
            })
            &&& w.inflight == 0
            &&& w.ready.len() == 0
        }),
{
    lemma_closed_at(v, v.blanks.len(), now, i);
}

proof fn lemma_closed_at(v: ExecutionView, k: nat, now: Seq<char>, i: int)
    requires
        v.sound(),
        0 <= i < v.blanks.len(),
        k <= v.blanks.len(),
    ensures
        ({
            let w = closed_upto(v, k, now);
            if i >= k || v.status[i].terminal() {
                w.status[i] == v.status[i] && w.results[i] == v.results[i]
            } else {
                w.status[i] == left_over(v, i, now).status && w.results[i] == Some(
                    left_over(v, i, now),
                )
            }
        }),
    decreases k,
{
    if k > 0 {
        lemma_closed_at(v, (k - 1) as nat, now, i);
        lemma_closed_upto(v, (k - 1) as nat, now);
    }
}

/// A model that is settled without being built has the status given, frees its
/// readers, and is written to the journal exactly where it is no reuse.
pub proof fn law_settled_models_free_their_readers(
    v: ExecutionView,
    i: usize,
    status: ExecutionStatus,
    note: Option<Seq<char>>,
    c: int,
)
    requires
        v.sound(),
        i < v.blanks.len(),
        v.status[i as int] == ExecutionStatus::Pending,
        status.satisfied(),
        status == ExecutionStatus::Passed ==> v.remaining[i as int] == 0,
        0 <= c < v.blanks.len(),
    ensures
        ({
            let w = settled(v, i, status, note);
            &&& w.sound()
            &&& w.status == v.status.update(i as int, status)
            &&& w.results[i as int] matches Some(result) && result.status == status
                && result.model == v.blanks[i as int].model
            &&& note is Some ==> w.journal == v.journal && w.results[i as int]->0.reasons
                == v.blanks[i as int].reasons.push(note->0)
            &&& note is None ==> w.journal == v.journal.push(i)
                && w.results[i as int]->0.reasons == v.blanks[i as int].reasons
            &&& w.remaining[c] == 0 <==> unhindered(w, c)
            &&& w.inflight == v.inflight
        }),
{
    let blank = v.blanks[i as int];
    match note {
        Some(text) => {
            lemma_satisfy(
                v,
                i as int,
                ModelResultView { status, reasons: blank.reasons.push(text), ..blank },
            );
        },
        None => {
            lemma_satisfy(v, i as int, ModelResultView { status, ..blank });
        },
    }
    let w = settled(v, i, status, note);
    assert(w.sound());
    law_models_wait_for_what_they_read(w, c);
}

/// A model that reads a seed which failed to load is blocked, and what is
/// below it with it; a model that was done stays as it was.
pub proof fn law_failed_seeds_block_their_readers(
    v: ExecutionView,
    i: usize,
    now: Seq<char>,
    c: usize,
)
    requires
        v.sound(),
        i < v.blanks.len(),
        v.status[i as int] == ExecutionStatus::Pending,
        c < v.blanks.len(),
    ensures
        ({
            let w = blocked_by_seed(v, i, now);
            &&& w.status[i as int] == ExecutionStatus::Blocked
            &&& c != i && reads(v, c as int, i as int) && !v.status[c as int].terminal()
                ==> w.status[c as int] == ExecutionStatus::Blocked
            &&& v.status[c as int].terminal() ==> w.status[c as int] == v.status[c as int]
            &&& c != i ==> w.status[c as int] == v.status[c as int] || w.status[c as int]
                == ExecutionStatus::Blocked
        }),
{
    let result = unexecuted(
        v.blanks[i as int],
        ExecutionStatus::Blocked,
        FailureCategory::Dependency,
        "blocked by a failed seed load"@,
        now,
    );
    lemma_conclude_unsatisfied(v, i as int, result);
    let w = journaled(concluded(v, i as int, result), i);
    assert(w.sound());
    law_failures_hold_up_what_is_below(w, i, now, c);
    law_failures_hold_up_what_is_below(w, i, now, i);
    if c != i {
        assert(w.status[c as int] == v.status[c as int]);
        assert(reads(w, c as int, i as int) == reads(v, c as int, i as int));
    }
}

/// The results of an execution are those of its models that are done.
pub proof fn law_results_are_of_done_models(
    results: Seq<Option<ModelResultView>>,
    result: ModelResultView,
)
    ensures
        gather(results, if_done()).contains(result) <==> results.contains(Some(result)),
{
    let f = if_done();
    lemma_gather_member(results, f, result);
    if results.contains(Some(result)) {
        let k = choose|k: int| 0 <= k < results.len() && results[k] == Some(result);
        assert(f(results[k])[0] == result);
        assert(f(results[k]).contains(result));
    }
    if gather(results, f).contains(result) {
        let k = choose|k: int| 0 <= k < results.len() && f(#[trigger] results[k]).contains(result);
        assert(results[k] == Some(result));
    }
}

/// A run starts with every model pending and nothing decided, stopped or in
/// flight, and runs at least one model at a time.
pub proof fn law_runs_start_with_nothing_decided(
    blanks: Seq<ModelResultView>,
    children: Seq<Seq<usize>>,
    concurrency: usize,
    fail_fast: bool,
    events: Seq<crate::events::EngineEventView>,
    j: int,
)
    requires
        0 <= j < blanks.len(),
    ensures
        ({
            let v = fresh(blanks, children, concurrency, fail_fast, events);
            &&& v.status[j] == ExecutionStatus::Pending
            &&& v.results[j] is None
            &&& v.remaining[j] == reads_of(children, j) as usize
            &&& v.inflight == 0
            &&& v.limit >= 1 && (concurrency >= 1 ==> v.limit == concurrency)
            &&& v.fail_fast == fail_fast
            &&& !v.cancelled && !v.failed_fast
            &&& v.events == events
        }),
{
}

} // verus!
