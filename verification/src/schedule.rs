//! The scheduler: which model of a run starts when, and what every outcome
//! means for the others.
//!
//! An [`Execution`] holds the state of a run's models. It hands out the next
//! model to start and takes back how each attempt ended; it never waits and
//! never executes anything itself. A model starts only when every planned
//! model it reads is satisfied; a failure blocks everything downstream of it.

use vstd::prelude::*;

use crate::events::{EngineEvent, EngineEventView, ExecutionStatus};
use crate::failure::{unattempted, Attempt, AttemptView, Failure, FailureCategory, FailureView};
use crate::run::{ModelResult, ModelResultView};
use crate::seqs::{
    count_where, gather, lemma_count_ends, lemma_count_step, lemma_gather_ends, lemma_gather_step,
};
use crate::text::{cat3, none_of, put, DeepClone};

verus! {

/// Picks the index `j`.
pub open spec fn is_index(j: int) -> spec_fn(usize) -> bool {
    |x: usize| x == j
}

/// How often `j` occurs in a list.
pub open spec fn times(list: Seq<usize>, j: int) -> nat {
    count_where(list, is_index(j))
}

/// How many of the first `k` models' edges to `j` come from models that are
/// not satisfied.
pub open spec fn waiting_upto(
    children: Seq<Seq<usize>>,
    status: Seq<ExecutionStatus>,
    j: int,
    k: nat,
) -> nat
    decreases k,
{
    if k == 0 {
        0
    } else {
        waiting_upto(children, status, j, (k - 1) as nat) + if status[k - 1].satisfied() {
            0
        } else {
            times(children[k - 1], j)
        }
    }
}

/// How many reads of model `j` are of models that are not satisfied yet.
pub open spec fn waiting(
    children: Seq<Seq<usize>>,
    status: Seq<ExecutionStatus>,
    j: int,
) -> nat {
    waiting_upto(children, status, j, status.len())
}

/// A model that was started, whatever came of it.
pub open spec fn was_started(status: ExecutionStatus) -> bool {
    status is Running || status is Passed || status is Failed
}

/// Counts running models.
pub open spec fn is_running() -> spec_fn(ExecutionStatus) -> bool {
    |status: ExecutionStatus| status is Running
}

/// The state of an execution.
pub struct ExecutionView {
    /// Each model's result before anything is known of its execution.
    pub blanks: Seq<ModelResultView>,
    /// For each model the models that read it, once per read.
    pub children: Seq<Seq<usize>>,
    pub status: Seq<ExecutionStatus>,
    /// For each model how many of its reads are not satisfied yet.
    pub remaining: Seq<usize>,
    pub results: Seq<Option<ModelResultView>>,
    /// The models that may start, in order.
    pub ready: Seq<usize>,
    pub inflight: usize,
    pub limit: usize,
    pub fail_fast: bool,
    pub cancelled: bool,
    pub failed_fast: bool,
    pub events: Seq<EngineEventView>,
    /// The models whose results are to be persisted, in order.
    pub journal: Seq<usize>,
}

impl ExecutionView {
    /// The run has stopped scheduling new work.
    pub open spec fn stopped(self) -> bool {
        self.cancelled || self.failed_fast
    }

    /// The parts of the state have the same length and refer to models that
    /// exist.
    pub open spec fn shaped(self) -> bool {
        let n = self.blanks.len();
        &&& self.children.len() == n
        &&& self.status.len() == n
        &&& self.remaining.len() == n
        &&& self.results.len() == n
        &&& n <= usize::MAX
        &&& forall|i: int, k: int|
            0 <= i < n && 0 <= k < self.children[i].len() ==> (#[trigger] self.children[i][k]) < n
        &&& forall|k: int| 0 <= k < self.ready.len() ==> (#[trigger] self.ready[k]) < n
        &&& forall|k: int| 0 <= k < self.journal.len() ==> (#[trigger] self.journal[k]) < n
    }

    /// The invariant of an execution: the counters say what the statuses say,
    /// nothing is ready or started while it waits for another model, a result
    /// stands exactly for a model that is done, and the running models are
    /// counted and within the limit.
    pub open spec fn sound(self) -> bool {
        let n = self.blanks.len();
        &&& self.shaped()
        &&& forall|j: int|
            0 <= j < n ==> (#[trigger] self.remaining[j]) == waiting(
                self.children,
                self.status,
                j,
            )
        &&& forall|k: int|
            0 <= k < self.ready.len() ==> self.remaining[(#[trigger] self.ready[k]) as int] == 0
        &&& forall|j: int|
            0 <= j < n && was_started(#[trigger] self.status[j]) ==> self.remaining[j] == 0
        &&& forall|j: int|
            0 <= j < n ==> ((#[trigger] self.results[j]) is Some <==> self.status[j].terminal())
        &&& forall|j: int|
            0 <= j < n && (#[trigger] self.results[j]) is Some ==> self.results[j]->0.status
                == self.status[j]
        &&& self.inflight == count_where(self.status, is_running())
        &&& self.inflight <= self.limit
        &&& self.limit >= 1
    }
}

/// The event that a model is done.
pub open spec fn finished(result: ModelResultView) -> EngineEventView {
    EngineEventView::ModelFinished {
        model: result.model,
        status: result.status,
        query_id: result.query_id,
        duration_ms: result.duration_ms,
    }
}

/// Model `i` is done with `result`.
pub open spec fn concluded(v: ExecutionView, i: int, result: ModelResultView) -> ExecutionView {
    ExecutionView {
        status: v.status.update(i, result.status),
        results: v.results.update(i, Some(result)),
        events: v.events.push(finished(result)),
        ..v
    }
}

/// The counters after the models of `list` stop waiting for one read each.
pub open spec fn released(remaining: Seq<usize>, list: Seq<usize>) -> Seq<usize> {
    Seq::new(remaining.len(), |j: int| (remaining[j] - times(list, j)) as usize)
}

/// Model `i` is satisfied: it is done, and nothing waits for it any more.
pub open spec fn satisfied_with(
    v: ExecutionView,
    i: int,
    result: ModelResultView,
) -> ExecutionView {
    let done = concluded(v, i, result);
    ExecutionView { remaining: released(v.remaining, v.children[i]), ..done }
}

/// The models below `c`, each with `c` as the one that leads to it.
pub open spec fn below(children: Seq<Seq<usize>>, c: usize) -> Seq<(usize, usize)> {
    Seq::new(children[c as int].len(), |k: int| (c, children[c as int][k]))
}

/// Walks depth first from the edges on `stack` through models that are still
/// open, and lists each with the model that led to it.
pub open spec fn walk(
    children: Seq<Seq<usize>>,
    open: Set<int>,
    stack: Seq<(usize, usize)>,
) -> Seq<(usize, usize)>
    decreases open.len(), stack.len(),
{
    if stack.len() == 0 || !open.finite() {
        Seq::empty()
    } else {
        let (p, c) = stack[0];
        let rest = stack.drop_first();
        if open.contains(c as int) {
            seq![(p, c)] + walk(children, open.remove(c as int), below(children, c) + rest)
        } else {
            walk(children, open, rest)
        }
    }
}

/// The models that are not done.
pub open spec fn open_models(status: Seq<ExecutionStatus>) -> Set<int> {
    vstd::set_lib::set_int_range(0, status.len() as int).filter(
        |j: int| !status[j].terminal(),
    )
}

/// The result of a model that never ran.
pub open spec fn unexecuted(
    blank: ModelResultView,
    status: ExecutionStatus,
    category: FailureCategory,
    message: Seq<char>,
    now: Seq<char>,
) -> ModelResultView {
    ModelResultView {
        status,
        failure: Some(unattempted(category, message, now)),
        ..blank
    }
}

/// The result of a model below a failed or blocked one.
pub open spec fn blocked_result(
    v: ExecutionView,
    edge: (usize, usize),
    now: Seq<char>,
) -> ModelResultView {
    unexecuted(
        v.blanks[edge.1 as int],
        ExecutionStatus::Blocked,
        FailureCategory::Dependency,
        "upstream "@ + v.blanks[edge.0 as int].model + " failed"@,
        now,
    )
}

/// Every model that the edges lead to is blocked and journaled.
pub open spec fn blocked_along(
    v: ExecutionView,
    edges: Seq<(usize, usize)>,
    now: Seq<char>,
) -> ExecutionView
    decreases edges.len(),
{
    if edges.len() == 0 {
        v
    } else {
        let before = blocked_along(v, edges.drop_last(), now);
        let edge = edges.last();
        let after = concluded(before, edge.1 as int, blocked_result(v, edge, now));
        ExecutionView { journal: after.journal.push(edge.1), ..after }
    }
}

/// Everything downstream of `i` that is not done is blocked, each model by the
/// one through which a depth-first walk reaches it.
pub open spec fn blocked_below(v: ExecutionView, i: usize, now: Seq<char>) -> ExecutionView {
    blocked_along(v, walk(v.children, open_models(v.status), below(v.children, i)), now)
}

/// Model `i` is journaled: its result is to be persisted.
pub open spec fn journaled(v: ExecutionView, i: usize) -> ExecutionView {
    ExecutionView { journal: v.journal.push(i), ..v }
}

proof fn lemma_waiting_same(
    children: Seq<Seq<usize>>,
    a: Seq<ExecutionStatus>,
    b: Seq<ExecutionStatus>,
    j: int,
    k: nat,
)
    requires
        k <= a.len(),
        a.len() == b.len(),
        forall|i: int| 0 <= i < k ==> (#[trigger] a[i]).satisfied() == b[i].satisfied(),
    ensures
        waiting_upto(children, a, j, k) == waiting_upto(children, b, j, k),
    decreases k,
{
    if k > 0 {
        lemma_waiting_same(children, a, b, j, (k - 1) as nat);
        assert(a[k - 1].satisfied() == b[k - 1].satisfied());
    }
}

proof fn lemma_waiting_released(
    children: Seq<Seq<usize>>,
    status: Seq<ExecutionStatus>,
    i: int,
    now: ExecutionStatus,
    j: int,
    k: nat,
)
    requires
        0 <= i < status.len(),
        k <= status.len(),
        !status[i].satisfied(),
        now.satisfied(),
    ensures
        waiting_upto(children, status, j, k) == waiting_upto(
            children,
            status.update(i, now),
            j,
            k,
        ) + if i < k {
            times(children[i], j)
        } else {
            0
        },
    decreases k,
{
    if k > 0 {
        lemma_waiting_released(children, status, i, now, j, (k - 1) as nat);
    }
}

pub proof fn lemma_waiting_covers(
    children: Seq<Seq<usize>>,
    status: Seq<ExecutionStatus>,
    i: int,
    j: int,
    k: nat,
)
    requires
        0 <= i < k <= status.len(),
        !status[i].satisfied(),
    ensures
        waiting_upto(children, status, j, k) >= times(children[i], j),
    decreases k,
{
    if i < k - 1 {
        lemma_waiting_covers(children, status, i, j, (k - 1) as nat);
    }
}

pub proof fn lemma_times_positive(list: Seq<usize>, j: usize)
    ensures
        list.contains(j) <==> times(list, j as int) > 0,
    decreases list.len(),
{
    if list.len() > 0 {
        let rest = list.drop_last();
        lemma_times_positive(rest, j);
        if list.contains(j) {
            let k = choose|k: int| 0 <= k < list.len() && list[k] == j;
            if k < rest.len() {
                assert(rest[k] == j);
            }
        }
        if rest.contains(j) {
            let k = choose|k: int| 0 <= k < rest.len() && rest[k] == j;
            assert(list[k] == j);
        }
        if list.last() == j {
            assert(list[list.len() - 1] == j);
        }
    }
}

proof fn lemma_running_update(status: Seq<ExecutionStatus>, i: int, now: ExecutionStatus)
    requires
        0 <= i < status.len(),
    ensures
        count_where(status.update(i, now), is_running()) + (if status[i] is Running {
            1nat
        } else {
            0nat
        }) == count_where(status, is_running()) + (if now is Running {
            1nat
        } else {
            0nat
        }),
    decreases status.len(),
{
    let after = status.update(i, now);
    if i == status.len() - 1 {
        assert(after.drop_last() =~= status.drop_last());
    } else {
        lemma_running_update(status.drop_last(), i, now);
        assert(after.drop_last() =~= status.drop_last().update(i, now));
    }
}

/// A model that waits for nobody has every model it reads satisfied.
pub proof fn lemma_none_waiting(
    children: Seq<Seq<usize>>,
    status: Seq<ExecutionStatus>,
    i: int,
    j: usize,
)
    requires
        0 <= i < status.len(),
        waiting(children, status, j as int) == 0,
        children[i].contains(j),
    ensures
        status[i].satisfied(),
{
    if !status[i].satisfied() {
        lemma_waiting_covers(children, status, i, j as int, status.len());
        lemma_times_positive(children[i], j);
    }
}

/// A model that was started had, and still has, every planned model it reads
/// satisfied.
pub proof fn law_started_models_read_satisfied_models(v: ExecutionView, i: int, j: usize)
    requires
        v.sound(),
        0 <= i < v.blanks.len(),
        j < v.blanks.len(),
        v.children[i].contains(j),
        was_started(v.status[j as int]),
    ensures
        v.status[i].satisfied(),
{
    assert(v.remaining[j as int] == 0);
    lemma_none_waiting(v.children, v.status, i, j);
}

pub proof fn lemma_open_models(status: Seq<ExecutionStatus>)
    ensures
        open_models(status).finite(),
        forall|j: int| #[trigger]
            open_models(status).contains(j) <==> 0 <= j < status.len() && !status[j].terminal(),
{
    vstd::set_lib::lemma_int_range(0, status.len() as int);
}

/// What a walk lists: models that were open, each once, each below the model
/// that led to it, and that one was open or led the walk.
pub proof fn lemma_walk(
    children: Seq<Seq<usize>>,
    open: Set<int>,
    stack: Seq<(usize, usize)>,
    roots: Set<usize>,
)
    requires
        open.finite(),
        forall|c: int| #[trigger]
            open.contains(c) ==> 0 <= c < children.len() && c <= usize::MAX,
        forall|k: int|
            0 <= k < stack.len() ==> {
                let edge = #[trigger] stack[k];
                edge.0 < children.len() && children[edge.0 as int].contains(edge.1)
                    && roots.contains(edge.0)
            },
    ensures
        forall|k: int|
            0 <= k < walk(children, open, stack).len() ==> {
                let edge = #[trigger] walk(children, open, stack)[k];
                edge.0 < children.len() && children[edge.0 as int].contains(edge.1)
                    && open.contains(edge.1 as int) && (roots.contains(edge.0) || open.contains(
                    edge.0 as int,
                ))
            },
        forall|a: int, b: int|
            0 <= a < b < walk(children, open, stack).len() ==> (#[trigger] walk(
                children,
                open,
                stack,
            )[a]).1 != (#[trigger] walk(children, open, stack)[b]).1,
    decreases open.len(), stack.len(),
{
    if stack.len() > 0 {
        let (p, c) = stack[0];
        let rest = stack.drop_first();
        if open.contains(c as int) {
            let smaller = open.remove(c as int);
            let grown = roots.insert(c);
            let more = below(children, c) + rest;
            assert forall|k: int| 0 <= k < more.len() implies {
                let edge = #[trigger] more[k];
                edge.0 < children.len() && children[edge.0 as int].contains(edge.1)
                    && grown.contains(edge.0)
            } by {
                if k < below(children, c).len() {
                    assert(more[k] == (c, children[c as int][k]));
                    assert(children[c as int].contains(children[c as int][k]));
                } else {
                    assert(more[k] == stack[k - below(children, c).len() + 1]);
                }
            }
            lemma_walk(children, smaller, more, grown);
            let tail = walk(children, smaller, more);
            let all = walk(children, open, stack);
            assert(all == seq![(p, c)] + tail);
            assert forall|k: int| 0 <= k < all.len() implies {
                let edge = #[trigger] all[k];
                edge.0 < children.len() && children[edge.0 as int].contains(edge.1)
                    && open.contains(edge.1 as int) && (roots.contains(edge.0) || open.contains(
                    edge.0 as int,
                ))
            } by {
                if k > 0 {
                    assert(all[k] == tail[k - 1]);
                } else {
                    assert(all[0] == stack[0]);
                }
            }
            assert forall|a: int, b: int| 0 <= a < b < all.len() implies (#[trigger] all[a]).1 != (
            #[trigger] all[b]).1 by {
                assert(all[b] == tail[b - 1]);
                if a > 0 {
                    assert(all[a] == tail[a - 1]);
                } else {
                    assert(smaller.contains(tail[b - 1].1 as int));
                }
            }
        } else {
            assert forall|k: int| 0 <= k < rest.len() implies {
                let edge = #[trigger] rest[k];
                edge.0 < children.len() && children[edge.0 as int].contains(edge.1)
                    && roots.contains(edge.0)
            } by {
                assert(rest[k] == stack[k + 1]);
            }
            lemma_walk(children, open, rest, roots);
            assert(walk(children, open, stack) == walk(children, open, rest));
        }
    } else {
        assert(walk(children, open, stack).len() == 0);
    }
}

/// Everything a walk can reach is listed, or was not open.
pub proof fn lemma_walk_complete(
    children: Seq<Seq<usize>>,
    open: Set<int>,
    stack: Seq<(usize, usize)>,
    c: usize,
)
    requires
        open.finite(),
        open.contains(c as int),
        exists|k: int| 0 <= k < stack.len() && (#[trigger] stack[k]).1 == c,
    ensures
        exists|k: int|
            0 <= k < walk(children, open, stack).len() && (#[trigger] walk(
                children,
                open,
                stack,
            )[k]).1 == c,
    decreases open.len(), stack.len(),
{
    let at = choose|k: int| 0 <= k < stack.len() && (#[trigger] stack[k]).1 == c;
    let (p, d) = stack[0];
    let rest = stack.drop_first();
    let all = walk(children, open, stack);
    if open.contains(d as int) {
        let smaller = open.remove(d as int);
        let more = below(children, d) + rest;
        let tail = walk(children, smaller, more);
        assert(all == seq![(p, d)] + tail);
        if d == c {
            assert(all[0].1 == c);
        } else {
            assert(more[below(children, d).len() + at - 1] == stack[at]);
            lemma_walk_complete(children, smaller, more, c);
            let k = choose|k: int| 0 <= k < tail.len() && (#[trigger] tail[k]).1 == c;
            assert(all[k + 1] == tail[k]);
        }
    } else {
        assert(rest[at - 1] == stack[at]);
        lemma_walk_complete(children, open, rest, c);
    }
}

/// Concluding a model that is not done, with a status that satisfies nobody,
/// keeps an execution sound.
pub proof fn lemma_conclude_unsatisfied(v: ExecutionView, i: int, result: ModelResultView)
    requires
        v.sound(),
        0 <= i < v.blanks.len(),
        !v.status[i].terminal(),
        result.status.terminal(),
        !result.status.satisfied(),
        !(v.status[i] is Running),
        result.status is Failed ==> v.remaining[i] == 0,
    ensures
        concluded(v, i, result).sound(),
{
    let w = concluded(v, i, result);
    assert forall|j: int| 0 <= j < v.blanks.len() implies (#[trigger] w.remaining[j]) == waiting(
        w.children,
        w.status,
        j,
    ) by {
        lemma_waiting_same(v.children, v.status, w.status, j, v.status.len());
        assert(v.remaining[j] == waiting(v.children, v.status, j));
    }
    lemma_running_update(v.status, i, result.status);
    assert forall|j: int| 0 <= j < v.blanks.len() && was_started(
        #[trigger] w.status[j],
    ) implies w.remaining[j] == 0 by {
        if j != i {
            assert(w.status[j] == v.status[j]);
        }
    }
    assert forall|j: int| 0 <= j < v.blanks.len() implies ((#[trigger] w.results[j]) is Some
        <==> w.status[j].terminal()) by {
        if j != i {
            assert(w.results[j] == v.results[j]);
        }
    }
    assert forall|j: int|
        0 <= j < v.blanks.len() && (#[trigger] w.results[j]) is Some implies w.results[j]->0.status
        == w.status[j] by {
        if j != i {
            assert(w.results[j] == v.results[j]);
        }
    }
    assert forall|k: int| 0 <= k < w.ready.len() implies w.remaining[(
    #[trigger] w.ready[k]) as int] == 0 by {
        assert(v.remaining[v.ready[k] as int] == 0);
    }
}

/// Satisfying a model that is not done, waits for nobody or was not started,
/// keeps an execution sound.
pub proof fn lemma_satisfy(v: ExecutionView, i: int, result: ModelResultView)
    requires
        v.sound(),
        0 <= i < v.blanks.len(),
        !v.status[i].terminal(),
        !(v.status[i] is Running),
        result.status.satisfied(),
        was_started(result.status) ==> v.remaining[i] == 0,
    ensures
        satisfied_with(v, i, result).sound(),
        forall|j: int|
            0 <= j < v.blanks.len() ==> times(v.children[i], j) <= #[trigger] v.remaining[j],
{
    let w = satisfied_with(v, i, result);
    let n = v.blanks.len();
    assert forall|j: int| 0 <= j < n implies times(v.children[i], j) <= #[trigger] v.remaining[j]
        && w.remaining[j] == waiting(w.children, w.status, j) && w.remaining[j]
        <= v.remaining[j] by {
        lemma_waiting_released(v.children, v.status, i, result.status, j, n);
        assert(v.remaining[j] == waiting(v.children, v.status, j));
    }
    lemma_running_update(v.status, i, result.status);
    assert forall|j: int| 0 <= j < n && was_started(
        #[trigger] w.status[j],
    ) implies w.remaining[j] == 0 by {
        assert(w.remaining[j] <= v.remaining[j]);
        if j != i {
            assert(w.status[j] == v.status[j]);
        }
    }
    assert forall|j: int| 0 <= j < n implies ((#[trigger] w.results[j]) is Some
        <==> w.status[j].terminal()) by {
        if j != i {
            assert(w.results[j] == v.results[j]);
        }
    }
    assert forall|j: int|
        0 <= j < n && (#[trigger] w.results[j]) is Some implies w.results[j]->0.status
        == w.status[j] by {
        if j != i {
            assert(w.results[j] == v.results[j]);
        }
    }
    assert forall|k: int| 0 <= k < w.ready.len() implies w.remaining[(
    #[trigger] w.ready[k]) as int] == 0 by {
        assert(v.remaining[v.ready[k] as int] == 0);
        assert(w.remaining[v.ready[k] as int] <= v.remaining[v.ready[k] as int]);
    }
}

/// What blocking along edges leaves: a sound state in which exactly the models
/// that the edges lead to have changed, and are blocked.
pub proof fn lemma_blocked_along(
    v: ExecutionView,
    edges: Seq<(usize, usize)>,
    now: Seq<char>,
)
    requires
        v.sound(),
        forall|k: int|
            0 <= k < edges.len() ==> {
                let edge = #[trigger] edges[k];
                edge.0 < v.blanks.len() && v.children[edge.0 as int].contains(edge.1) && edge.1
                    < v.blanks.len() && !v.status[edge.1 as int].terminal()
                    && !v.status[edge.0 as int].satisfied()
            },
        forall|a: int, b: int|
            0 <= a < b < edges.len() ==> (#[trigger] edges[a]).1 != (#[trigger] edges[b]).1,
    ensures
        blocked_along(v, edges, now).sound(),
        blocked_along(v, edges, now).blanks == v.blanks,
        blocked_along(v, edges, now).children == v.children,
        blocked_along(v, edges, now).ready == v.ready,
        blocked_along(v, edges, now).remaining == v.remaining,
        blocked_along(v, edges, now).inflight == v.inflight,
        blocked_along(v, edges, now).limit == v.limit,
        blocked_along(v, edges, now).fail_fast == v.fail_fast,
        blocked_along(v, edges, now).cancelled == v.cancelled,
        blocked_along(v, edges, now).failed_fast == v.failed_fast,
        forall|j: int|
            0 <= j < v.blanks.len() ==> #[trigger] blocked_along(v, edges, now).status[j] == if (
            exists|k: int| 0 <= k < edges.len() && (#[trigger] edges[k]).1 == j) {
                ExecutionStatus::Blocked
            } else {
                v.status[j]
            },
    decreases edges.len(),
{
    if edges.len() > 0 {
        let rest = edges.drop_last();
        let edge = edges.last();
        assert forall|k: int| 0 <= k < rest.len() implies {
            let edge = #[trigger] rest[k];
            edge.0 < v.blanks.len() && v.children[edge.0 as int].contains(edge.1) && edge.1
                < v.blanks.len() && !v.status[edge.1 as int].terminal()
                && !v.status[edge.0 as int].satisfied()
        } by {
            assert(rest[k] == edges[k]);
        }
        assert forall|a: int, b: int| 0 <= a < b < rest.len() implies (#[trigger] rest[a]).1 != (
        #[trigger] rest[b]).1 by {
            assert(rest[a] == edges[a] && rest[b] == edges[b]);
        }
        lemma_blocked_along(v, rest, now);
        let u = blocked_along(v, rest, now);
        let c = edge.1 as int;
        let p = edge.0 as int;
        assert(edges[edges.len() - 1] == edge);
        assert(!(exists|k: int| 0 <= k < rest.len() && (#[trigger] rest[k]).1 == c)) by {
            if exists|k: int| 0 <= k < rest.len() && (#[trigger] rest[k]).1 == c {
                let k = choose|k: int| 0 <= k < rest.len() && (#[trigger] rest[k]).1 == c;
                assert(edges[k] == rest[k]);
                assert(edges[k].1 != edges[edges.len() - 1].1);
            }
        }
        assert(u.status[c] == v.status[c]);
        assert(!u.status[p].satisfied());
        lemma_waiting_covers(u.children, u.status, p, c, u.status.len());
        lemma_times_positive(u.children[p], edge.1);
        assert(u.remaining[c] > 0);
        let result = blocked_result(v, edge, now);
        lemma_conclude_unsatisfied(u, c, result);
        let w = concluded(u, c, result);
        assert(blocked_along(v, edges, now) == journaled(w, edge.1));
        assert forall|j: int| 0 <= j < v.blanks.len() implies #[trigger] w.status[j] == if (exists|
            k: int,
        |
            0 <= k < edges.len() && (#[trigger] edges[k]).1 == j) {
            ExecutionStatus::Blocked
        } else {
            v.status[j]
        } by {
            if j == c {
                assert(edges[edges.len() - 1].1 == j);
            } else {
                if exists|k: int| 0 <= k < rest.len() && (#[trigger] rest[k]).1 == j {
                    let k = choose|k: int| 0 <= k < rest.len() && (#[trigger] rest[k]).1 == j;
                    assert(edges[k].1 == j);
                }
                if exists|k: int| 0 <= k < edges.len() && (#[trigger] edges[k]).1 == j {
                    let k = choose|k: int| 0 <= k < edges.len() && (#[trigger] edges[k]).1 == j;
                    assert(k < rest.len());
                    assert(rest[k].1 == j);
                }
                assert(w.status[j] == u.status[j]);
            }
        }
    }
}

/// Blocking below a model that is done without satisfying anybody keeps an
/// execution sound.
pub proof fn lemma_blocked_below(v: ExecutionView, i: usize, now: Seq<char>)
    requires
        v.sound(),
        i < v.blanks.len(),
        !v.status[i as int].satisfied(),
    ensures
        ({
            let edges = walk(v.children, open_models(v.status), below(v.children, i));
            &&& blocked_below(v, i, now).sound()
            &&& blocked_below(v, i, now).fail_fast == v.fail_fast
            &&& forall|k: int|
                0 <= k < edges.len() ==> {
                    let edge = #[trigger] edges[k];
                    edge.0 < v.blanks.len() && v.children[edge.0 as int].contains(edge.1) && edge.1
                        < v.blanks.len() && !v.status[edge.1 as int].terminal()
                        && !v.status[edge.0 as int].satisfied()
                }
            &&& forall|a: int, b: int|
                0 <= a < b < edges.len() ==> (#[trigger] edges[a]).1 != (#[trigger] edges[b]).1
        }),
{
    let open = open_models(v.status);
    let stack = below(v.children, i);
    lemma_open_models(v.status);
    let roots = Set::<usize>::empty().insert(i);
    assert forall|k: int| 0 <= k < stack.len() implies {
        let edge = #[trigger] stack[k];
        edge.0 < v.children.len() && v.children[edge.0 as int].contains(edge.1) && roots.contains(
            edge.0,
        )
    } by {
        assert(v.children[i as int].contains(v.children[i as int][k]));
    }
    lemma_walk(v.children, open, stack, roots);
    let edges = walk(v.children, open, stack);
    assert forall|k: int| 0 <= k < edges.len() implies {
        let edge = #[trigger] edges[k];
        edge.0 < v.blanks.len() && v.children[edge.0 as int].contains(edge.1) && edge.1
            < v.blanks.len() && !v.status[edge.1 as int].terminal()
            && !v.status[edge.0 as int].satisfied()
    } by {
        assert(open.contains(edges[k].1 as int));
    }
    lemma_blocked_along(v, edges, now);
}

/// Whatever reads a failed or blocked model and is not done is blocked with
/// it.
pub proof fn law_failure_blocks_its_readers(
    v: ExecutionView,
    i: usize,
    now: Seq<char>,
    c: usize,
)
    requires
        v.sound(),
        i < v.blanks.len(),
        !v.status[i as int].satisfied(),
        v.children[i as int].contains(c),
        !v.status[c as int].terminal(),
    ensures
        blocked_below(v, i, now).status[c as int] == ExecutionStatus::Blocked,
{
    let open = open_models(v.status);
    let stack = below(v.children, i);
    lemma_open_models(v.status);
    let list = v.children[i as int];
    let k = choose|k: int| 0 <= k < list.len() && list[k] == c;
    assert(v.children[i as int][k] < v.blanks.len());
    assert(stack[k].1 == c);
    lemma_walk_complete(v.children, open, stack, c);
    let edges = walk(v.children, open, stack);
    lemma_blocked_below(v, i, now);
    lemma_blocked_along(v, edges, now);
    let m = choose|m: int| 0 <= m < edges.len() && (#[trigger] edges[m]).1 == c;
    assert(edges[m].1 == c as int);
}

/// A model that is done stays as it is, whatever else is blocked.
pub proof fn law_blocking_leaves_done_models_alone(
    v: ExecutionView,
    i: usize,
    now: Seq<char>,
    j: int,
)
    requires
        v.sound(),
        i < v.blanks.len(),
        !v.status[i as int].satisfied(),
        0 <= j < v.blanks.len(),
        v.status[j].terminal(),
    ensures
        blocked_below(v, i, now).status[j] == v.status[j],
{
    let edges = walk(v.children, open_models(v.status), below(v.children, i));
    lemma_blocked_below(v, i, now);
    lemma_blocked_along(v, edges, now);
    if exists|k: int| 0 <= k < edges.len() && (#[trigger] edges[k]).1 == j {
        let k = choose|k: int| 0 <= k < edges.len() && (#[trigger] edges[k]).1 == j;
        assert(!v.status[edges[k].1 as int].terminal());
    }
}

/// Keeps a model that may start.
pub open spec fn if_ready(v: ExecutionView) -> spec_fn(usize) -> Seq<usize> {
    |c: usize|
        if v.remaining[c as int] == 0 && v.status[c as int] == ExecutionStatus::Pending {
            seq![c]
        } else {
            Seq::empty()
        }
}

/// The position of the first pending model among those that are ready.
pub open spec fn first_pending(v: ExecutionView, k: int) -> int
    decreases v.ready.len() - k,
{
    if k >= v.ready.len() {
        v.ready.len() as int
    } else if v.status[v.ready[k] as int] == ExecutionStatus::Pending {
        k
    } else {
        first_pending(v, k + 1)
    }
}

/// The next model to start, and the state once it has: none while the run is
/// stopped or the limit is reached, else the first ready one still pending.
pub open spec fn next_start(v: ExecutionView) -> (Option<usize>, ExecutionView) {
    if v.stopped() || v.inflight >= v.limit {
        (None, v)
    } else {
        let k = first_pending(v, 0);
        if k == v.ready.len() {
            (None, ExecutionView { ready: Seq::empty(), ..v })
        } else {
            let i = v.ready[k];
            (
                Some(i),
                ExecutionView {
                    status: v.status.update(i as int, ExecutionStatus::Running),
                    ready: v.ready.skip(k + 1),
                    inflight: (v.inflight + 1) as usize,
                    events: v.events.push(
                        EngineEventView::ModelStarted { model: v.blanks[i as int].model },
                    ),
                    ..v
                },
            )
        }
    }
}

/// How an attempted model ended.
#[derive(Clone, Debug, PartialEq, Eq)]
pub struct Completion {
    /// Every attempt, those of earlier invocations of the run included.
    pub attempts: Vec<Attempt>,
    /// What the last attempt failed with; nothing where it succeeded.
    pub failure: Option<Failure>,
    pub query_id: Option<String>,
    /// The relation's physical identity right after a successful build.
    pub output_identity: Option<String>,
    pub started_at: String,
    pub finished_at: String,
    pub duration_ms: u64,
}

/// The contents of a [`Completion`].
pub struct CompletionView {
    pub attempts: Seq<AttemptView>,
    pub failure: Option<FailureView>,
    pub query_id: Option<Seq<char>>,
    pub output_identity: Option<Seq<char>>,
    pub started_at: Seq<char>,
    pub finished_at: Seq<char>,
    pub duration_ms: u64,
}

impl DeepView for Completion {
    type V = CompletionView;

    open spec fn deep_view(&self) -> CompletionView {
        CompletionView {
            attempts: self.attempts.deep_view(),
            failure: self.failure.deep_view(),
            query_id: self.query_id.deep_view(),
            output_identity: self.output_identity.deep_view(),
            started_at: self.started_at@,
            finished_at: self.finished_at@,
            duration_ms: self.duration_ms,
        }
    }
}

impl DeepClone for Completion {
    fn deep_clone(&self) -> (copy: Self) {
        Completion {
            attempts: self.attempts.deep_clone(),
            failure: self.failure.deep_clone(),
            query_id: self.query_id.deep_clone(),
            output_identity: self.output_identity.deep_clone(),
            started_at: self.started_at.deep_clone(),
            finished_at: self.finished_at.deep_clone(),
            duration_ms: self.duration_ms,
        }
    }
}

/// The result of a model that was executed.
pub open spec fn executed(blank: ModelResultView, end: CompletionView) -> ModelResultView {
    ModelResultView {
        status: if end.failure is None {
            ExecutionStatus::Passed
        } else {
            ExecutionStatus::Failed
        },
        attempts: end.attempts,
        failure: end.failure,
        query_id: if end.failure is None {
            end.query_id
        } else {
            None
        },
        output_identity: if end.failure is None {
            end.output_identity
        } else {
            None
        },
        started_at: Some(end.started_at),
        finished_at: Some(end.finished_at),
        duration_ms: end.duration_ms,
        ..blank
    }
}

/// Model `i` is no longer in flight.
pub open spec fn landed(v: ExecutionView, i: int) -> ExecutionView {
    ExecutionView {
        status: v.status.update(i, ExecutionStatus::Pending),
        inflight: (v.inflight - 1) as usize,
        ..v
    }
}

/// The state after a running model ends. Success satisfies the models that
/// read it, and those that wait for nobody any more become ready unless the
/// run has stopped. Failure blocks everything downstream, and under fail-fast
/// stops the run.
pub open spec fn after_completion(
    v: ExecutionView,
    i: usize,
    end: CompletionView,
    now: Seq<char>,
) -> ExecutionView {
    let result = executed(v.blanks[i as int], end);
    let down = landed(v, i as int);
    if end.failure is None {
        let w = journaled(satisfied_with(down, i as int, result), i);
        ExecutionView {
            ready: if v.stopped() {
                v.ready
            } else {
                v.ready + gather(v.children[i as int], if_ready(w))
            },
            ..w
        }
    } else {
        let w = blocked_below(journaled(concluded(down, i as int, result), i), i, now);
        if v.fail_fast {
            ExecutionView { failed_fast: true, ready: Seq::empty(), ..w }
        } else {
            w
        }
    }
}

/// What a model that never reached an end is left as: cancelled in a stopped
/// run, blocked otherwise.
pub open spec fn left_over(v: ExecutionView, i: int, now: Seq<char>) -> ModelResultView {
    if v.cancelled {
        unexecuted(
            v.blanks[i],
            ExecutionStatus::Cancelled,
            FailureCategory::Cancelled,
            "run cancelled"@,
            now,
        )
    } else if v.failed_fast {
        unexecuted(
            v.blanks[i],
            ExecutionStatus::Cancelled,
            FailureCategory::Cancelled,
            "cancelled by fail-fast shutdown"@,
            now,
        )
    } else {
        unexecuted(
            v.blanks[i],
            ExecutionStatus::Blocked,
            FailureCategory::Dependency,
            "blocked by an upstream failure"@,
            now,
        )
    }
}

/// The state once the first `k` models are done, one way or another.
pub open spec fn closed_upto(v: ExecutionView, k: nat, now: Seq<char>) -> ExecutionView
    decreases k,
{
    if k == 0 {
        v
    } else {
        let u = closed_upto(v, (k - 1) as nat, now);
        let i = k - 1;
        if v.status[i].terminal() {
            u
        } else {
            journaled(concluded(u, i, left_over(v, i, now)), i as usize)
        }
    }
}

/// The state once every model is done.
pub open spec fn closed(v: ExecutionView, now: Seq<char>) -> ExecutionView {
    ExecutionView { inflight: 0, ready: Seq::empty(), ..closed_upto(v, v.blanks.len(), now) }
}

/// The execution of a run's models.
#[derive(Debug)]
pub struct Execution {
    blanks: Vec<ModelResult>,
    children: Vec<Vec<usize>>,
    status: Vec<ExecutionStatus>,
    remaining: Vec<usize>,
    results: Vec<Option<ModelResult>>,
    ready: Vec<usize>,
    inflight: usize,
    limit: usize,
    fail_fast: bool,
    cancelled: bool,
    failed_fast: bool,
    events: Vec<EngineEvent>,
    journal: Vec<usize>,
}

impl DeepView for Execution {
    type V = ExecutionView;

    closed spec fn deep_view(&self) -> ExecutionView {
        ExecutionView {
            blanks: self.blanks.deep_view(),
            children: self.children.deep_view(),
            status: self.status@,
            remaining: self.remaining@,
            results: self.results.deep_view(),
            ready: self.ready@,
            inflight: self.inflight,
            limit: self.limit,
            fail_fast: self.fail_fast,
            cancelled: self.cancelled,
            failed_fast: self.failed_fast,
            events: self.events.deep_view(),
            journal: self.journal@,
        }
    }
}

/// Replaces the element at `i`, in the deep view as well.
fn replace<T: DeepView>(items: &mut Vec<T>, i: usize, item: T)
    requires
        i < old(items)@.len(),
    ensures
        final(items).deep_view() == old(items).deep_view().update(i as int, item.deep_view()),
        final(items)@ == old(items)@.update(i as int, item),
{
    let ghost before = items@;
    items[i] = item;
    assert(items.deep_view() =~= Seq::new(before.len(), |k: int| before[k].deep_view()).update(
        i as int,
        item.deep_view(),
    ));
}

/// Counts down once per occurrence.
fn release_dependents(remaining: &mut Vec<usize>, list: &Vec<usize>)
    requires
        forall|k: int| 0 <= k < list@.len() ==> (#[trigger] list@[k]) < old(remaining)@.len(),
        forall|j: int|
            0 <= j < old(remaining)@.len() ==> times(list@, j) <= #[trigger] old(remaining)@[j],
    ensures
        final(remaining)@ == released(old(remaining)@, list@),
{
    let ghost before = remaining@;
    assert(list@.take(0) =~= Seq::<usize>::empty());
    assert(released(before, list@.take(0)) =~= before);
    for k in 0..list.len()
        invariant
            remaining@ == released(before, list@.take(k as int)),
            forall|m: int| 0 <= m < list@.len() ==> (#[trigger] list@[m]) < before.len(),
            forall|j: int| 0 <= j < before.len() ==> times(list@, j) <= #[trigger] before[j],
    {
        let c: usize = list[k];
        proof {
            lemma_count_step(list@, k as int, is_index(c as int));
            lemma_times_prefix(list@, c as int, k as int + 1);
            assert(list@[k as int] < before.len());
            assert(times(list@, c as int) <= before[c as int]);
        }
        let count: usize = remaining[c];
        remaining[c] = count - 1;
        proof {
            let after = released(before, list@.take(k as int + 1));
            assert forall|j: int| 0 <= j < before.len() implies remaining@[j] == after[j] by {
                lemma_count_step(list@, k as int, is_index(j));
                lemma_times_prefix(list@, j, k as int + 1);
                assert(times(list@, j) <= before[j]);
            }
            assert(remaining@ =~= after);
        }
    }
    assert(list@.take(list@.len() as int) =~= list@);
}

proof fn lemma_times_prefix(list: Seq<usize>, j: int, k: int)
    requires
        0 <= k <= list.len(),
    ensures
        times(list.take(k), j) <= times(list, j),
    decreases list.len() - k,
{
    if k < list.len() {
        lemma_count_step(list, k, is_index(j));
        lemma_times_prefix(list, j, k + 1);
    } else {
        assert(list.take(k) =~= list);
    }
}

/// Walks from the readers of `i` through open models.
fn walk_from(children: &Vec<Vec<usize>>, status: &Vec<ExecutionStatus>, i: usize) -> (edges: Vec<
    (usize, usize),
>)
    requires
        children@.len() == status@.len(),
        i < status@.len(),
        forall|a: int, k: int|
            0 <= a < children@.len() && 0 <= k < children@[a]@.len() ==> (
            #[trigger] children@[a]@[k]) < status@.len(),
    ensures
        edges@ == walk(children.deep_view(), open_models(status@), below(children.deep_view(), i)),
{
    let ghost lists = children.deep_view();
    let ghost mut open = open_models(status@);
    let ghost start = walk(lists, open, below(lists, i));
    proof {
        lemma_open_models(status@);
        assert forall|a: int| 0 <= a < lists.len() implies #[trigger] lists[a]
            == children@[a]@ by {
            assert(children@[a].deep_view() =~= children@[a]@);
        }
    }
    let mut flags: Vec<bool> = Vec::new();
    for j in 0..status.len()
        invariant
            flags@.len() == j,
            forall|k: int| 0 <= k < j ==> #[trigger] flags@[k] == !status@[k].terminal(),
    {
        flags.push(!status[j].is_terminal());
    }
    let mut stack: Vec<(usize, usize)> = Vec::new();
    let ghost mut front: Seq<(usize, usize)> = Seq::empty();
    push_edges(&mut stack, &children[i], i);
    proof {
        front = below(lists, i);
        assert(stack@.reverse() =~= front);
    }
    let mut edges: Vec<(usize, usize)> = Vec::new();
    assert(edges@ + walk(lists, open, front) =~= start);
    while stack.len() > 0
        invariant
            lists == children.deep_view(),
            children@.len() == status@.len(),
            flags@.len() == status@.len(),
            forall|a: int| 0 <= a < lists.len() ==> #[trigger] lists[a] == children@[a]@,
            forall|a: int, k: int|
                0 <= a < children@.len() && 0 <= k < children@[a]@.len() ==> (
                #[trigger] children@[a]@[k]) < status@.len(),
            open.finite(),
            forall|j: int| #[trigger]
                open.contains(j) <==> 0 <= j < flags@.len() && flags@[j],
            front == stack@.reverse(),
            forall|k: int| 0 <= k < stack@.len() ==> (#[trigger] stack@[k]).1 < status@.len(),
            edges@ + walk(lists, open, front) == start,
        decreases open.len(), stack@.len(),
    {
        let ghost old_stack = stack@;
        let ghost old_edges = edges@;
        let (p, c) = match stack.pop() {
            Some(edge) => edge,
            None => {
                return edges;
            },
        };
        proof {
            assert(front[0] == (p, c));
            assert(front.drop_first() =~= stack@.reverse());
            assert(old_stack[old_stack.len() - 1] == (p, c));
        }
        if flags[c] {
            flags.set(c, false);
            edges.push((p, c));
            let ghost rest = stack@;
            push_edges(&mut stack, &children[c], c);
            proof {
                let smaller = open.remove(c as int);
                let more = below(lists, c) + front.drop_first();
                assert(stack@.reverse() =~= more);
                assert(edges@ + walk(lists, smaller, more) =~= old_edges + (seq![(p, c)] + walk(
                    lists,
                    smaller,
                    more,
                )));
                open = smaller;
                front = more;
                assert forall|k: int| 0 <= k < stack@.len() implies (#[trigger] stack@[k]).1
                    < status@.len() by {
                    if k >= rest.len() {
                        let list = children@[c as int]@;
                        let m = list.len() - 1 - (k - rest.len());
                        assert(stack@[k] == (c, list[m]));
                        assert(children@[c as int]@[m] < status@.len());
                    } else {
                        assert(stack@[k] == old_stack[k]);
                    }
                }
            }
        } else {
            proof {
                front = front.drop_first();
                assert forall|k: int| 0 <= k < stack@.len() implies (#[trigger] stack@[k]).1
                    < status@.len() by {
                    assert(stack@[k] == old_stack[k]);
                }
            }
        }
    }
    proof {
        assert(front =~= Seq::<(usize, usize)>::empty());
        assert(edges@ =~= start);
    }
    edges
}

/// Pushes the edges from `c` to its readers, the first reader on top.
fn push_edges(stack: &mut Vec<(usize, usize)>, list: &Vec<usize>, c: usize)
    ensures
        final(stack)@ == old(stack)@ + Seq::new(
            list@.len(),
            |k: int| (c, list@[list@.len() - 1 - k]),
        ),
{
    let ghost before = stack@;
    let mut k: usize = list.len();
    while k > 0
        invariant
            k <= list@.len(),
            stack@ == before + Seq::new(
                (list@.len() - k) as nat,
                |m: int| (c, list@[list@.len() - 1 - m]),
            ),
        decreases k,
    {
        k = k - 1;
        stack.push((c, list[k]));
        assert(stack@ =~= before + Seq::new(
            (list@.len() - k) as nat,
            |m: int| (c, list@[list@.len() - 1 - m]),
        ));
    }
}

/// A model that never ran, with the reason.
fn not_executed(
    blank: &ModelResult,
    status: ExecutionStatus,
    category: FailureCategory,
    message: &str,
    now: &str,
) -> (r: ModelResult)
    ensures
        r.deep_view() == unexecuted(blank.deep_view(), status, category, message@, now@),
{
    let failure: Failure = Failure::without_attempt_at(category, message, now);
    blank.deep_clone().with_status(status).with_failure(failure)
}

impl Execution {
    /// A fresh execution of models none of which is started. `children` holds
    /// for each model the models that read it, once per read.
    pub fn new(
        blanks: Vec<ModelResult>,
        children: Vec<Vec<usize>>,
        concurrency: usize,
        fail_fast: bool,
        events: Vec<EngineEvent>,
    ) -> (r: Self)
        requires
            children@.len() == blanks@.len(),
            forall|i: int, k: int|
                0 <= i < children@.len() && 0 <= k < children@[i]@.len() ==> (
                #[trigger] children@[i]@[k]) < blanks@.len(),
            forall|j: int|
                0 <= j < blanks@.len() ==> #[trigger] reads_of(children.deep_view(), j)
                    <= usize::MAX,
        ensures
            r.deep_view() == fresh(
                blanks.deep_view(),
                children.deep_view(),
                concurrency,
                fail_fast,
                events.deep_view(),
            ),
            r.deep_view().sound(),
    {
        let n: usize = blanks.len();
        let mut status: Vec<ExecutionStatus> = Vec::new();
        let mut remaining: Vec<usize> = Vec::new();
        let mut results: Vec<Option<ModelResult>> = Vec::new();
        let ghost lists = children.deep_view();
        proof {
            assert forall|a: int| 0 <= a < lists.len() implies #[trigger] lists[a]
                == children@[a]@ by {
                assert(children@[a].deep_view() =~= children@[a]@);
            }
        }
        for j in 0..n
            invariant
                n == blanks@.len(),
                children@.len() == n,
                lists == children.deep_view(),
                forall|a: int| 0 <= a < lists.len() ==> #[trigger] lists[a] == children@[a]@,
                forall|k: int|
                    0 <= k < blanks@.len() ==> #[trigger] reads_of(lists, k) <= usize::MAX,
                status@.len() == j,
                remaining@.len() == j,
                results@.len() == j,
                forall|k: int| 0 <= k < j ==> #[trigger] status@[k] == ExecutionStatus::Pending,
                forall|k: int| 0 <= k < j ==> #[trigger] remaining@[k] == reads_of(lists, k),
                forall|k: int| 0 <= k < j ==> (#[trigger] results@[k]) is None,
        {
            status.push(ExecutionStatus::Pending);
            remaining.push(count_reads(&children, j));
            results.push(None);
        }
        let r = Execution {
            blanks,
            children,
            status,
            remaining,
            results,
            ready: Vec::new(),
            inflight: 0,
            limit: if concurrency == 0 {
                1
            } else {
                concurrency
            },
            fail_fast,
            cancelled: false,
            failed_fast: false,
            events,
            journal: Vec::new(),
        };
        proof {
            let v = r.deep_view();
            let f = fresh(
                blanks.deep_view(),
                children.deep_view(),
                concurrency,
                fail_fast,
                events.deep_view(),
            );
            assert(v.status =~= f.status);
            assert(v.remaining =~= f.remaining) by {
                assert forall|j: int| 0 <= j < n implies v.remaining[j] == f.remaining[j] by {
                    assert(reads_of(lists, j) <= usize::MAX);
                }
            }
            assert(v.results =~= f.results);
            assert(v.ready =~= f.ready);
            assert(v.journal =~= f.journal);
            lemma_fresh(
                blanks.deep_view(),
                children.deep_view(),
                concurrency,
                fail_fast,
                events.deep_view(),
            );
        }
        r
    }

    /// Concludes a model with a result.
    fn conclude(&mut self, i: usize, result: ModelResult)
        requires
            i < old(self).deep_view().blanks.len(),
            old(self).deep_view().shaped(),
        ensures
            final(self).deep_view() == concluded(
                old(self).deep_view(),
                i as int,
                result.deep_view(),
            ),
    {
        let ghost before = self.deep_view();
        assert(self.blanks.deep_view().len() == self.blanks@.len());
        assert(self.results.deep_view().len() == self.results@.len());
        let event: EngineEvent = EngineEvent::ModelFinished {
            model: result.model.clone(),
            status: result.status,
            query_id: result.query_id.deep_clone(),
            duration_ms: result.duration_ms,
        };
        self.status[i] = result.status;
        put(&mut self.events, event);
        replace(&mut self.results, i, Some(result));
        assert(self.deep_view() == concluded(before, i as int, result.deep_view()));
    }

    /// Satisfies the models that read `i`.
    fn satisfy(&mut self, i: usize, result: ModelResult)
        requires
            old(self).deep_view().sound(),
            i < old(self).deep_view().blanks.len(),
            !old(self).deep_view().status[i as int].terminal(),
            !(old(self).deep_view().status[i as int] is Running),
            result.status.satisfied(),
            was_started(result.status) ==> old(self).deep_view().remaining[i as int] == 0,
        ensures
            final(self).deep_view() == satisfied_with(
                old(self).deep_view(),
                i as int,
                result.deep_view(),
            ),
            final(self).deep_view().sound(),
    {
        let ghost v = self.deep_view();
        proof {
            lemma_satisfy(v, i as int, result.deep_view());
            assert(self.children.deep_view().len() == self.children@.len());
            assert(v.children[i as int] =~= self.children@[i as int]@) by {
                assert(v.children[i as int] == self.children@[i as int].deep_view());
            }
            assert forall|k: int| 0 <= k < self.children@[i as int]@.len() implies (
            #[trigger] self.children@[i as int]@[k]) < self.remaining@.len() by {
                assert(v.children[i as int][k] < v.blanks.len());
            }
            assert forall|j: int| 0 <= j < self.remaining@.len() implies times(
                self.children@[i as int]@,
                j,
            ) <= #[trigger] self.remaining@[j] by {
                assert(times(v.children[i as int], j) <= v.remaining[j]);
            }
        }
        release_dependents(&mut self.remaining, &self.children[i]);
        let ghost mid = self.deep_view();
        assert(mid == (ExecutionView { remaining: released(v.remaining, v.children[i as int]), ..v
        }));
        self.conclude(i, result);
    }

    /// Blocks everything downstream of `i` that is not done.
    pub fn block_dependents(&mut self, i: usize, now: &str)
        requires
            old(self).deep_view().sound(),
            i < old(self).deep_view().blanks.len(),
            !old(self).deep_view().status[i as int].satisfied(),
        ensures
            final(self).deep_view() == blocked_below(old(self).deep_view(), i, now@),
            final(self).deep_view().sound(),
    {
        let ghost v = self.deep_view();
        proof {
            lemma_blocked_below(v, i, now@);
            assert(self.blanks.deep_view().len() == self.blanks@.len());
            assert(self.children.deep_view().len() == self.children@.len());
            assert forall|a: int, k: int|
                0 <= a < self.children@.len() && 0 <= k < self.children@[a]@.len() implies (
            #[trigger] self.children@[a]@[k]) < self.status@.len() by {
                assert(v.children[a] == self.children@[a].deep_view());
                assert(v.children[a][k] == self.children@[a]@[k]);
            }
        }
        let edges: Vec<(usize, usize)> = walk_from(&self.children, &self.status, i);
        let ghost all = edges@;
        assert(all.take(0) =~= Seq::<(usize, usize)>::empty());
        for m in 0..edges.len()
            invariant
                v.sound(),
                all == edges@,
                self.deep_view() == blocked_along(v, all.take(m as int), now@),
                forall|k: int|
                    0 <= k < all.len() ==> {
                        let edge = #[trigger] all[k];
                        edge.0 < v.blanks.len() && v.children[edge.0 as int].contains(edge.1)
                            && edge.1 < v.blanks.len() && !v.status[edge.1 as int].terminal()
                            && !v.status[edge.0 as int].satisfied()
                    },
                forall|a: int, b: int|
                    0 <= a < b < all.len() ==> (#[trigger] all[a]).1 != (#[trigger] all[b]).1,
        {
            let (p, c) = edges[m];
            proof {
                let done = all.take(m as int);
                assert forall|k: int| 0 <= k < done.len() implies {
                    let edge = #[trigger] done[k];
                    edge.0 < v.blanks.len() && v.children[edge.0 as int].contains(edge.1) && edge.1
                        < v.blanks.len() && !v.status[edge.1 as int].terminal()
                        && !v.status[edge.0 as int].satisfied()
                } by {
                    assert(done[k] == all[k]);
                }
                assert forall|a: int, b: int| 0 <= a < b < done.len() implies (
                #[trigger] done[a]).1 != (#[trigger] done[b]).1 by {
                    assert(done[a] == all[a] && done[b] == all[b]);
                }
                lemma_blocked_along(v, done, now@);
                assert(all.take(m as int + 1).drop_last() =~= done);
                assert(all[m as int] == (p, c));
                assert(self.blanks.deep_view().len() == self.blanks@.len());
            }
            let message: String = cat3("upstream ", self.blanks[p].model.as_str(), " failed");
            let result: ModelResult = not_executed(
                &self.blanks[c],
                ExecutionStatus::Blocked,
                FailureCategory::Dependency,
                message.as_str(),
                now,
            );
            self.conclude(c, result);
            self.journal.push(c);
        }
        assert(all.take(all.len() as int) =~= all);
    }

    /// Settles a pending model that does not have to be built: it counts as
    /// satisfied at once. A reused model keeps the record it has.
    pub fn settle(&mut self, i: usize, status: ExecutionStatus, note: Option<String>)
        requires
            old(self).deep_view().sound(),
            i < old(self).deep_view().blanks.len(),
            old(self).deep_view().status[i as int] == ExecutionStatus::Pending,
            status == ExecutionStatus::Cached || status == ExecutionStatus::Skipped,
        ensures
            final(self).deep_view() == settled(
                old(self).deep_view(),
                i,
                status,
                note.deep_view(),
            ),
            final(self).deep_view().sound(),
    {
        assert(self.blanks.deep_view().len() == self.blanks@.len());
        let mut result: ModelResult = self.blanks[i].deep_clone().with_status(status);
        let persist: bool = note.is_none();
        if let Some(text) = note {
            put(&mut result.reasons, text);
        }
        self.satisfy(i, result);
        if persist {
            self.journal.push(i);
        }
    }

    /// Blocks a pending model that reads a seed which failed to load, and
    /// everything downstream of it.
    pub fn block_unloaded(&mut self, i: usize, now: &str)
        requires
            old(self).deep_view().sound(),
            i < old(self).deep_view().blanks.len(),
            old(self).deep_view().status[i as int] == ExecutionStatus::Pending,
        ensures
            final(self).deep_view() == blocked_by_seed(old(self).deep_view(), i, now@),
            final(self).deep_view().sound(),
    {
        let ghost v = self.deep_view();
        assert(self.blanks.deep_view().len() == self.blanks@.len());
        let result: ModelResult = not_executed(
            &self.blanks[i],
            ExecutionStatus::Blocked,
            FailureCategory::Dependency,
            "blocked by a failed seed load",
            now,
        );
        proof {
            lemma_conclude_unsatisfied(v, i as int, result.deep_view());
        }
        self.conclude(i, result);
        self.journal.push(i);
        self.block_dependents(i, now);
    }

    /// Makes every pending model that waits for nobody ready, in order.
    pub fn fill_ready(&mut self)
        requires
            old(self).deep_view().sound(),
        ensures
            final(self).deep_view() == filled(old(self).deep_view()),
            final(self).deep_view().sound(),
    {
        let ghost v = self.deep_view();
        let ghost all = Seq::new(v.blanks.len(), |i: int| i as usize);
        let ghost f = if_ready(v);
        proof {
            lemma_gather_ends(all, f);
            assert(self.blanks.deep_view().len() == self.blanks@.len());
        }
        let mut ready: Vec<usize> = Vec::new();
        for i in 0..self.blanks.len()
            invariant
                v == self.deep_view(),
                v.sound(),
                v.blanks.len() == self.blanks@.len(),
                all == Seq::new(v.blanks.len(), |i: int| i as usize),
                f == if_ready(v),
                ready@ == gather(all.take(i as int), f),
                forall|k: int|
                    0 <= k < ready@.len() ==> (#[trigger] ready@[k]) < v.blanks.len()
                        && v.remaining[ready@[k] as int] == 0,
        {
            proof {
                lemma_gather_step(all, i as int, f);
                assert(all[i as int] == i);
            }
            let ghost before = ready@;
            if self.remaining[i] == 0 && self.status[i] == ExecutionStatus::Pending {
                ready.push(i);
            }
            assert(ready@ =~= before + f(i));
        }
        self.ready = ready;
        proof {
            let w = self.deep_view();
            assert(all.take(all.len() as int) =~= all);
            assert(w == filled(v));
            assert forall|k: int| 0 <= k < w.ready.len() implies (#[trigger] w.ready[k])
                < w.blanks.len() && w.remaining[w.ready[k] as int] == 0 by {
                assert(ready@[k] < v.blanks.len());
            }
            assert(w.sound());
        }
    }

    /// The next model to start, which is running from then on.
    pub fn next(&mut self) -> (r: Option<usize>)
        requires
            old(self).deep_view().sound(),
        ensures
            (r, final(self).deep_view()) == next_start(old(self).deep_view()),
            final(self).deep_view().sound(),
            r matches Some(i) ==> i < final(self).deep_view().blanks.len()
                && final(self).deep_view().status[i as int] == ExecutionStatus::Running,
    {
        let ghost v = self.deep_view();
        if self.cancelled || self.failed_fast || self.inflight >= self.limit {
            return None;
        }
        assert(self.blanks.deep_view().len() == self.blanks@.len());
        let ghost mut k: int = 0;
        assert(v.ready.skip(0) =~= v.ready);
        while self.ready.len() > 0
            invariant
                v == old(self).deep_view(),
                v.sound(),
                !v.stopped(),
                v.inflight < v.limit,
                0 <= k <= v.ready.len(),
                self.deep_view() == (ExecutionView { ready: v.ready.skip(k), ..v }),
                first_pending(v, 0) == first_pending(v, k),
                self.blanks@.len() == v.blanks.len(),
            decreases self.ready@.len(),
        {
            let i: usize = self.ready[0];
            assert(v.ready[k] == i);
            assert(v.ready[k] < v.blanks.len());
            self.ready.remove(0);
            proof {
                assert(self.ready@ =~= v.ready.skip(k + 1));
                assert(v.remaining[v.ready[k] as int] == 0);
            }
            if self.status[i] == ExecutionStatus::Pending {
                let event: EngineEvent = EngineEvent::ModelStarted {
                    model: self.blanks[i].model.clone(),
                };
                self.status[i] = ExecutionStatus::Running;
                self.inflight = self.inflight + 1;
                put(&mut self.events, event);
                proof {
                    assert(first_pending(v, k) == k);
                    assert(next_start(v).0 == Some(i));
                    assert(self.deep_view().events == next_start(v).1.events);
                    assert(self.deep_view() == next_start(v).1);
                    lemma_started(v, i as int, k);
                }
                return Some(i);
            }
            proof {
                k = k + 1;
            }
        }
        proof {
            assert(v.ready.skip(k).len() == 0);
            assert(v.ready.skip(k) =~= Seq::<usize>::empty());
        }
        None
    }

    /// Takes back a running model that ended.
    pub fn complete(&mut self, i: usize, end: Completion, now: &str)
        requires
            old(self).deep_view().sound(),
            i < old(self).deep_view().blanks.len(),
            old(self).deep_view().status[i as int] == ExecutionStatus::Running,
        ensures
            final(self).deep_view() == after_completion(
                old(self).deep_view(),
                i,
                end.deep_view(),
                now@,
            ),
            final(self).deep_view().sound(),
    {
        let ghost v = self.deep_view();
        proof {
            lemma_landed(v, i as int);
            assert(self.blanks.deep_view().len() == self.blanks@.len());
            assert(self.children.deep_view().len() == self.children@.len());
            assert(v.remaining[i as int] == 0);
        }
        self.status[i] = ExecutionStatus::Pending;
        self.inflight = self.inflight - 1;
        assert(self.deep_view() == landed(v, i as int));
        let ghost ended = end.deep_view();
        let failed: bool = end.failure.is_some();
        let result: ModelResult = ModelResult {
            status: if failed {
                ExecutionStatus::Failed
            } else {
                ExecutionStatus::Passed
            },
            attempts: end.attempts,
            failure: end.failure,
            query_id: if failed {
                None
            } else {
                end.query_id
            },
            output_identity: if failed {
                None
            } else {
                end.output_identity
            },
            started_at: Some(end.started_at),
            finished_at: Some(end.finished_at),
            duration_ms: end.duration_ms,
            ..self.blanks[i].deep_clone()
        };
        assert(result.deep_view() == executed(v.blanks[i as int], ended));
        if failed {
            proof {
                lemma_conclude_unsatisfied(landed(v, i as int), i as int, result.deep_view());
            }
            self.conclude(i, result);
            self.journal.push(i);
            proof {
                lemma_blocked_below(self.deep_view(), i, now@);
            }
            self.block_dependents(i, now);
            if self.fail_fast {
                self.failed_fast = true;
                self.ready = Vec::new();
                assert(self.ready@ =~= Seq::<usize>::empty());
            }
            assert(self.deep_view() == after_completion(v, i, ended, now@));
        } else {
            self.satisfy(i, result);
            self.journal.push(i);
            assert(self.deep_view() == journaled(
                satisfied_with(landed(v, i as int), i as int, executed(v.blanks[i as int], ended)),
                i,
            ));
            if !self.cancelled && !self.failed_fast {
                self.extend_ready(i);
            }
        }
    }

    fn extend_ready(&mut self, i: usize)
        requires
            old(self).deep_view().sound(),
            i < old(self).deep_view().blanks.len(),
        ensures
            final(self).deep_view() == (ExecutionView {
                ready: old(self).deep_view().ready + gather(
                    old(self).deep_view().children[i as int],
                    if_ready(old(self).deep_view()),
                ),
                ..old(self).deep_view()
            }),
            final(self).deep_view().sound(),
    {
        let ghost w = self.deep_view();
        let ghost list = w.children[i as int];
        let ghost f = if_ready(w);
        proof {
            lemma_gather_ends(list, f);
            assert(self.children.deep_view().len() == self.children@.len());
            assert(self.children@[i as int].deep_view() =~= self.children@[i as int]@);
            assert(list == self.children@[i as int]@);
        }
        let mut more: Vec<usize> = Vec::new();
        let count: usize = self.children[i].len();
        for k in 0..count
            invariant
                count == list.len(),
                w == self.deep_view(),
                w.sound(),
                i < self.children@.len(),
                i < w.blanks.len(),
                list == w.children[i as int],
                list == self.children@[i as int]@,
                f == if_ready(w),
                more@ == gather(list.take(k as int), f),
                forall|m: int|
                    0 <= m < more@.len() ==> (#[trigger] more@[m]) < w.blanks.len()
                        && w.remaining[more@[m] as int] == 0,
        {
            proof {
                lemma_gather_step(list, k as int, f);
                assert(w.children[i as int][k as int] < w.blanks.len());
            }
            let ghost before = more@;
            let c: usize = self.children[i][k];
            assert(c == list[k as int]);
            if self.remaining[c] == 0 && self.status[c] == ExecutionStatus::Pending {
                more.push(c);
            }
            assert(more@ =~= before + f(list[k as int]));
        }
        let ghost added = more@;
        let ghost before = self.ready@;
        self.ready.append(&mut more);
        proof {
            assert(self.ready@ =~= before + added);
            let u = self.deep_view();
            assert forall|k: int| 0 <= k < u.ready.len() implies (#[trigger] u.ready[k])
                < u.blanks.len() && u.remaining[u.ready[k] as int] == 0 by {
                if k < before.len() {
                    assert(u.ready[k] == w.ready[k]);
                    assert(w.remaining[w.ready[k] as int] == 0);
                } else {
                    assert(u.ready[k] == added[k - before.len()]);
                }
            }
        }
    }

    /// Stops the run: nothing new is started.
    pub fn cancel(&mut self)
        requires
            old(self).deep_view().sound(),
        ensures
            final(self).deep_view() == (ExecutionView { cancelled: true, ..old(self).deep_view() }),
            final(self).deep_view().sound(),
    {
        self.cancelled = true;
    }

    /// Stops the run because of a failure outside its models: nothing new is
    /// started, and what is left counts as cut off by fail-fast.
    pub fn shut_down(&mut self)
        requires
            old(self).deep_view().sound(),
        ensures
            final(self).deep_view() == (ExecutionView {
                failed_fast: true,
                ..old(self).deep_view()
            }),
            final(self).deep_view().sound(),
    {
        self.failed_fast = true;
    }

    /// Ends the execution: everything not done was never started or was cut
    /// off, and is cancelled in a stopped run, blocked otherwise.
    pub fn close(&mut self, now: &str)
        requires
            old(self).deep_view().sound(),
        ensures
            final(self).deep_view() == closed(old(self).deep_view(), now@),
            final(self).deep_view().sound(),
            forall|i: int|
                0 <= i < final(self).deep_view().blanks.len()
                    ==> (#[trigger] final(self).deep_view().status[i]).terminal(),
    {
        let ghost v = self.deep_view();
        assert(self.blanks.deep_view().len() == self.blanks@.len());
        let n: usize = self.blanks.len();
        for i in 0..n
            invariant
                n == v.blanks.len(),
                v.sound(),
                self.deep_view() == closed_upto(v, i as nat, now@),
        {
            proof {
                lemma_closed_upto(v, i as nat, now@);
                assert(self.blanks.deep_view().len() == self.blanks@.len());
            }
            if !self.status[i].is_terminal() {
                let result: ModelResult = if self.cancelled {
                    not_executed(
                        &self.blanks[i],
                        ExecutionStatus::Cancelled,
                        FailureCategory::Cancelled,
                        "run cancelled",
                        now,
                    )
                } else if self.failed_fast {
                    not_executed(
                        &self.blanks[i],
                        ExecutionStatus::Cancelled,
                        FailureCategory::Cancelled,
                        "cancelled by fail-fast shutdown",
                        now,
                    )
                } else {
                    not_executed(
                        &self.blanks[i],
                        ExecutionStatus::Blocked,
                        FailureCategory::Dependency,
                        "blocked by an upstream failure",
                        now,
                    )
                };
                self.conclude(i, result);
                self.journal.push(i);
            }
        }
        self.inflight = 0;
        self.ready = Vec::new();
        proof {
            assert(self.ready@ =~= Seq::<usize>::empty());
            lemma_closed(v, now@);
            lemma_closed_upto(v, n as nat, now@);
            assert(self.deep_view() == closed(v, now@));
        }
    }

    /// Whether anything is running or may still start.
    pub fn is_active(&self) -> (r: bool)
        ensures
            r == (self.deep_view().inflight > 0 || (self.deep_view().ready.len() > 0
                && !self.deep_view().stopped())),
    {
        self.inflight > 0 || (self.ready.len() > 0 && !self.cancelled && !self.failed_fast)
    }

    pub fn is_cancelled(&self) -> (r: bool)
        ensures
            r == self.deep_view().cancelled,
    {
        self.cancelled
    }

    /// Whether the run has stopped scheduling new work.
    pub fn is_stopped(&self) -> (r: bool)
        ensures
            r == self.deep_view().stopped(),
    {
        self.cancelled || self.failed_fast
    }

    /// The status of model `i`.
    pub fn status_of(&self, i: usize) -> (r: ExecutionStatus)
        requires
            i < self.deep_view().status.len(),
        ensures
            r == self.deep_view().status[i as int],
    {
        self.status[i]
    }

    /// The number of models.
    pub fn len(&self) -> (n: usize)
        ensures
            n == self.deep_view().blanks.len(),
    {
        assert(self.blanks.deep_view().len() == self.blanks@.len());
        self.blanks.len()
    }

    /// Model `i` before anything is known of its execution.
    pub fn blank(&self, i: usize) -> (r: &ModelResult)
        requires
            i < self.deep_view().blanks.len(),
        ensures
            r.deep_view() == self.deep_view().blanks[i as int],
    {
        assert(self.blanks.deep_view().len() == self.blanks@.len());
        &self.blanks[i]
    }

    /// The result of model `i`, once it is done.
    pub fn result(&self, i: usize) -> (r: &Option<ModelResult>)
        requires
            i < self.deep_view().results.len(),
        ensures
            r.deep_view() == self.deep_view().results[i as int],
    {
        assert(self.results.deep_view().len() == self.results@.len());
        &self.results[i]
    }

    /// The models whose results are to be persisted, from position `from` on.
    pub fn journal_from(&self, from: usize) -> (r: Vec<usize>)
        ensures
            r@ == if from <= self.deep_view().journal.len() {
                self.deep_view().journal.skip(from as int)
            } else {
                Seq::empty()
            },
    {
        let mut r: Vec<usize> = Vec::new();
        let mut k: usize = from;
        while k < self.journal.len()
            invariant
                from <= k,
                k <= self.journal@.len() || k == from,
                from <= self.journal@.len() ==> r@ == self.journal@.subrange(
                    from as int,
                    k as int,
                ),
                from > self.journal@.len() ==> r@.len() == 0,
            decreases self.journal@.len() - k,
        {
            r.push(self.journal[k]);
            assert(self.journal@.subrange(from as int, k as int + 1) =~= self.journal@.subrange(
                from as int,
                k as int,
            ).push(self.journal@[k as int]));
            k = k + 1;
        }
        proof {
            if from <= self.journal@.len() {
                assert(r@ =~= self.journal@.skip(from as int));
            } else {
                assert(r@ =~= Seq::<usize>::empty());
            }
        }
        r
    }

    /// Adds an event to the stream.
    pub fn note(&mut self, event: EngineEvent)
        requires
            old(self).deep_view().sound(),
        ensures
            final(self).deep_view() == (ExecutionView {
                events: old(self).deep_view().events.push(event.deep_view()),
                ..old(self).deep_view()
            }),
            final(self).deep_view().sound(),
    {
        put(&mut self.events, event);
    }

    /// The results of the models that are done, in order.
    pub fn results(&self) -> (r: Vec<ModelResult>)
        ensures
            r.deep_view() == gather(self.deep_view().results, if_done()),
    {
        let items: &Vec<Option<ModelResult>> = &self.results;
        let ghost views = items.deep_view();
        let ghost f = if_done();
        proof {
            lemma_gather_ends(views, f);
        }
        let mut r: Vec<ModelResult> = none_of();
        for i in 0..items.len()
            invariant
                views == items.deep_view(),
                f == if_done(),
                r.deep_view() == gather(views.take(i as int), f),
        {
            proof {
                lemma_gather_step(views, i as int, f);
            }
            let ghost before = r.deep_view();
            assert(views[i as int] == items@[i as int].deep_view());
            if let Some(result) = &items[i] {
                put(&mut r, result.deep_clone());
            }
            assert(r.deep_view() =~= before + f(views[i as int]));
        }
        r
    }

    /// The event stream so far.
    pub fn events(&self) -> (r: Vec<EngineEvent>)
        ensures
            r.deep_view() == self.deep_view().events,
    {
        self.events.deep_clone()
    }
}

/// Keeps the result of a model that is done.
pub open spec fn if_done() -> spec_fn(Option<ModelResultView>) -> Seq<ModelResultView> {
    |result: Option<ModelResultView>|
        match result {
            Some(given) => seq![given],
            None => Seq::empty(),
        }
}

/// How many reads of model `j` there are.
pub open spec fn reads_of(children: Seq<Seq<usize>>, j: int) -> nat {
    reads_upto(children, j, children.len())
}

/// How many reads of model `j` are of the first `k` models.
pub open spec fn reads_upto(children: Seq<Seq<usize>>, j: int, k: nat) -> nat
    decreases k,
{
    if k == 0 {
        0
    } else {
        reads_upto(children, j, (k - 1) as nat) + times(children[k - 1], j)
    }
}

/// The state before anything has started.
pub open spec fn fresh(
    blanks: Seq<ModelResultView>,
    children: Seq<Seq<usize>>,
    concurrency: usize,
    fail_fast: bool,
    events: Seq<EngineEventView>,
) -> ExecutionView {
    ExecutionView {
        blanks,
        children,
        status: Seq::new(blanks.len(), |j: int| ExecutionStatus::Pending),
        remaining: Seq::new(blanks.len(), |j: int| reads_of(children, j) as usize),
        results: Seq::new(blanks.len(), |j: int| None::<ModelResultView>),
        ready: Seq::empty(),
        inflight: 0,
        limit: if concurrency == 0 {
            1
        } else {
            concurrency
        },
        fail_fast,
        cancelled: false,
        failed_fast: false,
        events,
        journal: Seq::empty(),
    }
}

proof fn lemma_reads_waiting(
    children: Seq<Seq<usize>>,
    status: Seq<ExecutionStatus>,
    j: int,
    k: nat,
)
    requires
        k <= status.len(),
        forall|i: int| 0 <= i < k ==> !(#[trigger] status[i]).satisfied(),
    ensures
        waiting_upto(children, status, j, k) == reads_upto(children, j, k),
    decreases k,
{
    if k > 0 {
        lemma_reads_waiting(children, status, j, (k - 1) as nat);
        assert(!status[k - 1].satisfied());
    }
}

proof fn lemma_no_running(status: Seq<ExecutionStatus>)
    requires
        forall|i: int| 0 <= i < status.len() ==> !((#[trigger] status[i]) is Running),
    ensures
        count_where(status, is_running()) == 0,
    decreases status.len(),
{
    if status.len() > 0 {
        let rest = status.drop_last();
        assert forall|i: int| 0 <= i < rest.len() implies !((#[trigger] rest[i]) is Running) by {
            assert(rest[i] == status[i]);
        }
        lemma_no_running(rest);
        assert(!(status[status.len() - 1] is Running));
    }
}

proof fn lemma_fresh(
    blanks: Seq<ModelResultView>,
    children: Seq<Seq<usize>>,
    concurrency: usize,
    fail_fast: bool,
    events: Seq<EngineEventView>,
)
    requires
        blanks.len() <= usize::MAX,
        children.len() == blanks.len(),
        forall|i: int, k: int|
            0 <= i < children.len() && 0 <= k < children[i].len() ==> (#[trigger] children[i][k])
                < blanks.len(),
        forall|j: int|
            0 <= j < blanks.len() ==> #[trigger] reads_of(children, j) <= usize::MAX,
    ensures
        fresh(blanks, children, concurrency, fail_fast, events).sound(),
{
    let v = fresh(blanks, children, concurrency, fail_fast, events);
    assert forall|j: int| 0 <= j < blanks.len() implies (#[trigger] v.remaining[j]) == waiting(
        v.children,
        v.status,
        j,
    ) by {
        lemma_reads_waiting(children, v.status, j, blanks.len());
        assert(reads_of(children, j) <= usize::MAX);
    }
    lemma_no_running(v.status);
}

/// Counts the reads of model `j`.
fn count_reads(children: &Vec<Vec<usize>>, j: usize) -> (r: usize)
    requires
        reads_of(children.deep_view(), j as int) <= usize::MAX,
    ensures
        r == reads_of(children.deep_view(), j as int),
{
    let ghost lists = children.deep_view();
    let mut r: usize = 0;
    for i in 0..children.len()
        invariant
            lists == children.deep_view(),
            reads_of(lists, j as int) <= usize::MAX,
            r == reads_upto(lists, j as int, i as nat),
    {
        let ghost list = children@[i as int]@;
        assert(lists[i as int] =~= list) by {
            assert(lists[i as int] == children@[i as int].deep_view());
        }
        proof {
            lemma_count_ends(list, is_index(j as int));
            lemma_reads_monotone(lists, j as int, i as nat + 1);
        }
        let count: usize = children[i].len();
        for k in 0..count
            invariant
                count == list.len(),
                i < children@.len(),
                list == children@[i as int]@,
                reads_upto(lists, j as int, i as nat) + times(list, j as int) <= usize::MAX,
                r == reads_upto(lists, j as int, i as nat) + times(list.take(k as int), j as int),
        {
            proof {
                lemma_count_step(list, k as int, is_index(j as int));
                lemma_times_prefix(list, j as int, k as int + 1);
            }
            if children[i][k] == j {
                r = r + 1;
            }
        }
        assert(list.take(list.len() as int) =~= list);
    }
    r
}

proof fn lemma_reads_monotone(children: Seq<Seq<usize>>, j: int, k: nat)
    requires
        k <= children.len(),
    ensures
        reads_upto(children, j, k) <= reads_of(children, j),
    decreases children.len() - k,
{
    if k < children.len() {
        lemma_reads_monotone(children, j, k + 1);
    }
}

/// The state after a pending model is settled without being built; `note`
/// marks a reuse, which keeps the record it has.
pub open spec fn settled(
    v: ExecutionView,
    i: usize,
    status: ExecutionStatus,
    note: Option<Seq<char>>,
) -> ExecutionView {
    let blank = v.blanks[i as int];
    match note {
        Some(text) => satisfied_with(
            v,
            i as int,
            ModelResultView { status, reasons: blank.reasons.push(text), ..blank },
        ),
        None => journaled(
            satisfied_with(v, i as int, ModelResultView { status, ..blank }),
            i,
        ),
    }
}

/// The state after a pending model that reads a failed seed is blocked, and
/// everything downstream of it.
pub open spec fn blocked_by_seed(v: ExecutionView, i: usize, now: Seq<char>) -> ExecutionView {
    blocked_below(
        journaled(
            concluded(
                v,
                i as int,
                unexecuted(
                    v.blanks[i as int],
                    ExecutionStatus::Blocked,
                    FailureCategory::Dependency,
                    "blocked by a failed seed load"@,
                    now,
                ),
            ),
            i,
        ),
        i,
        now,
    )
}

/// Blocking what reads a failed seed leaves the models themselves as they are.
pub proof fn lemma_seed_block_keeps(v: ExecutionView, i: usize, now: Seq<char>)
    requires
        v.sound(),
        i < v.blanks.len(),
        v.status[i as int] == ExecutionStatus::Pending,
    ensures
        blocked_by_seed(v, i, now).blanks == v.blanks,
{
    let result = unexecuted(
        v.blanks[i as int],
        ExecutionStatus::Blocked,
        FailureCategory::Dependency,
        "blocked by a failed seed load"@,
        now,
    );
    lemma_conclude_unsatisfied(v, i as int, result);
    let w = journaled(concluded(v, i as int, result), i);
    assert(w.sound());
    lemma_blocked_below(w, i, now);
    lemma_blocked_along(w, walk(w.children, open_models(w.status), below(w.children, i)), now);
}

/// The state with every pending model that waits for nobody ready.
pub open spec fn filled(v: ExecutionView) -> ExecutionView {
    ExecutionView {
        ready: gather(Seq::new(v.blanks.len(), |i: int| i as usize), if_ready(v)),
        ..v
    }
}

pub proof fn lemma_landed(v: ExecutionView, i: int)
    requires
        v.sound(),
        0 <= i < v.blanks.len(),
        v.status[i] == ExecutionStatus::Running,
    ensures
        v.inflight > 0,
        landed(v, i).sound(),
{
    let w = landed(v, i);
    lemma_running_update(v.status, i, ExecutionStatus::Pending);
    assert forall|j: int| 0 <= j < v.blanks.len() implies (#[trigger] w.remaining[j]) == waiting(
        w.children,
        w.status,
        j,
    ) by {
        lemma_waiting_same(v.children, v.status, w.status, j, v.status.len());
        assert(v.remaining[j] == waiting(v.children, v.status, j));
    }
    assert forall|j: int| 0 <= j < v.blanks.len() && was_started(
        #[trigger] w.status[j],
    ) implies w.remaining[j] == 0 by {
        assert(j != i);
        assert(w.status[j] == v.status[j]);
    }
    assert forall|j: int| 0 <= j < v.blanks.len() implies ((#[trigger] w.results[j]) is Some
        <==> w.status[j].terminal()) by {
        assert(w.results[j] == v.results[j]);
    }
    assert forall|j: int|
        0 <= j < v.blanks.len() && (#[trigger] w.results[j]) is Some implies w.results[j]->0.status
        == w.status[j] by {
        assert(w.results[j] == v.results[j]);
        assert(j != i);
    }
    assert forall|k: int| 0 <= k < w.ready.len() implies w.remaining[(
    #[trigger] w.ready[k]) as int] == 0 by {
        assert(v.remaining[v.ready[k] as int] == 0);
    }
}

pub proof fn lemma_started(v: ExecutionView, i: int, k: int)
    requires
        v.sound(),
        !v.stopped(),
        v.inflight < v.limit,
        0 <= k < v.ready.len(),
        v.ready[k] == i,
        first_pending(v, 0) == k,
        v.status[i] == ExecutionStatus::Pending,
    ensures
        next_start(v).1.sound(),
{
    let w = next_start(v).1;
    assert(v.ready[k] < v.blanks.len());
    assert(v.remaining[v.ready[k] as int] == 0);
    lemma_running_update(v.status, i, ExecutionStatus::Running);
    assert forall|j: int| 0 <= j < v.blanks.len() implies (#[trigger] w.remaining[j]) == waiting(
        w.children,
        w.status,
        j,
    ) by {
        lemma_waiting_same(v.children, v.status, w.status, j, v.status.len());
        assert(v.remaining[j] == waiting(v.children, v.status, j));
    }
    assert forall|j: int| 0 <= j < v.blanks.len() && was_started(
        #[trigger] w.status[j],
    ) implies w.remaining[j] == 0 by {
        if j != i {
            assert(w.status[j] == v.status[j]);
        }
    }
    assert forall|j: int| 0 <= j < v.blanks.len() implies ((#[trigger] w.results[j]) is Some
        <==> w.status[j].terminal()) by {
        assert(w.results[j] == v.results[j]);
    }
    assert forall|j: int|
        0 <= j < v.blanks.len() && (#[trigger] w.results[j]) is Some implies w.results[j]->0.status
        == w.status[j] by {
        assert(w.results[j] == v.results[j]);
        assert(j != i);
    }
    assert forall|m: int| 0 <= m < w.ready.len() implies (#[trigger] w.ready[m]) < w.blanks.len()
        && w.remaining[w.ready[m] as int] == 0 by {
        assert(w.ready[m] == v.ready[k + 1 + m]);
        assert(v.remaining[v.ready[k + 1 + m] as int] == 0);
    }
}

pub proof fn lemma_closed_upto(v: ExecutionView, k: nat, now: Seq<char>)
    requires
        v.sound(),
        k <= v.blanks.len(),
    ensures
        ({
            let u = closed_upto(v, k, now);
            &&& u.shaped()
            &&& u.blanks == v.blanks
            &&& u.children == v.children
            &&& u.remaining == v.remaining
            &&& u.limit == v.limit
            &&& u.cancelled == v.cancelled
            &&& u.failed_fast == v.failed_fast
            &&& u.fail_fast == v.fail_fast
            &&& forall|j: int|
                k <= j < v.blanks.len() ==> #[trigger] u.status[j] == v.status[j] && u.results[j]
                    == v.results[j]
            &&& forall|j: int|
                0 <= j < k ==> (#[trigger] u.status[j]).terminal() && u.results[j] is Some
                    && u.results[j]->0.status == u.status[j] && (v.status[j].terminal()
                    ==> u.status[j] == v.status[j]) && (!v.status[j].terminal()
                    ==> !u.status[j].satisfied() && !was_started(u.status[j]))
        }),
    decreases k,
{
    if k > 0 {
        lemma_closed_upto(v, (k - 1) as nat, now);
        let before = closed_upto(v, (k - 1) as nat, now);
        let u = closed_upto(v, k, now);
        assert(v.results[k - 1] is Some <==> v.status[k - 1].terminal());
        assert(before.status[k - 1] == v.status[k - 1]);
        assert forall|j: int| k <= j < v.blanks.len() implies #[trigger] u.status[j] == v.status[j]
            && u.results[j] == v.results[j] by {
            assert(before.status[j] == v.status[j]);
        }
        assert forall|j: int| 0 <= j < k implies (#[trigger] u.status[j]).terminal()
            && u.results[j] is Some && u.results[j]->0.status == u.status[j] && (
        v.status[j].terminal() ==> u.status[j] == v.status[j]) && (!v.status[j].terminal()
            ==> !u.status[j].satisfied() && !was_started(u.status[j])) by {
            if j < k - 1 {
                assert(before.status[j].terminal());
                assert(u.status[j] == before.status[j]);
                assert(u.results[j] == before.results[j]);
            } else if v.status[j].terminal() {
                assert(u.status[j] == v.status[j]);
                assert(u.results[j] == v.results[j]);
            }
        }
    }
}

proof fn lemma_closed(v: ExecutionView, now: Seq<char>)
    requires
        v.sound(),
    ensures
        closed(v, now).sound(),
        forall|i: int|
            0 <= i < v.blanks.len() ==> (#[trigger] closed(v, now).status[i]).terminal(),
{
    let n = v.blanks.len();
    let w = closed(v, now);
    lemma_closed_upto(v, n, now);
    assert forall|j: int| 0 <= j < n implies (#[trigger] w.status[j]).satisfied()
        == v.status[j].satisfied() by {
        assert(w.status[j].terminal());
    }
    assert forall|j: int| 0 <= j < n implies (#[trigger] w.remaining[j]) == waiting(
        w.children,
        w.status,
        j,
    ) by {
        assert forall|i: int| 0 <= i < n implies (#[trigger] v.status[i]).satisfied()
            == w.status[i].satisfied() by {
            assert(w.status[i].satisfied() == v.status[i].satisfied());
        }
        lemma_waiting_same(v.children, v.status, w.status, j, n);
        assert(v.remaining[j] == waiting(v.children, v.status, j));
    }
    assert forall|j: int| 0 <= j < n && was_started(#[trigger] w.status[j]) implies w.remaining[j]
        == 0 by {
        assert(w.status[j].terminal());
        assert(w.status[j] == v.status[j]);
    }
    assert forall|j: int| 0 <= j < n implies !((#[trigger] w.status[j]) is Running) by {
        assert(w.status[j].terminal());
    }
    assert forall|j: int| 0 <= j < n implies ((#[trigger] w.results[j]) is Some
        <==> w.status[j].terminal()) && (w.results[j] is Some ==> w.results[j]->0.status
        == w.status[j]) by {
        assert(w.status[j].terminal());
    }
    lemma_no_running(w.status);
}

/// Once an execution is closed every model is done; those that were done
/// before are as they were.
pub proof fn law_every_model_ends(v: ExecutionView, now: Seq<char>, i: int)
    requires
        v.sound(),
        0 <= i < v.blanks.len(),
    ensures
        closed(v, now).status[i].terminal(),
        closed(v, now).results[i] is Some,
        v.status[i].terminal() ==> closed(v, now).status[i] == v.status[i],
{
    lemma_closed(v, now);
    lemma_closed_upto(v, v.blanks.len(), now);
    assert(closed(v, now).status[i].terminal());
    assert(closed_upto(v, v.blanks.len(), now).status[i].terminal());
}

/// Never more models run at once than the limit allows.
pub proof fn law_concurrency_is_bounded(v: ExecutionView)
    requires
        v.sound(),
    ensures
        count_where(v.status, is_running()) <= v.limit,
        count_where(next_start(v).1.status, is_running()) <= v.limit,
{
    if !v.stopped() && v.inflight < v.limit {
        lemma_first_pending(v, 0);
        let k = first_pending(v, 0);
        if k < v.ready.len() {
            lemma_started(v, v.ready[k] as int, k);
        }
    }
}

pub proof fn lemma_first_pending(v: ExecutionView, k: int)
    requires
        0 <= k <= v.ready.len(),
    ensures
        k <= first_pending(v, k) <= v.ready.len(),
        first_pending(v, k) < v.ready.len() ==> v.status[v.ready[first_pending(v, k)] as int]
            == ExecutionStatus::Pending,
    decreases v.ready.len() - k,
{
    if k < v.ready.len() && v.status[v.ready[k] as int] != ExecutionStatus::Pending {
        lemma_first_pending(v, k + 1);
    }
}

/// A stopped run starts nothing.
pub proof fn law_stopped_runs_start_nothing(v: ExecutionView)
    requires
        v.stopped(),
    ensures
        next_start(v) == (None::<usize>, v),
{
}

} // verus!
