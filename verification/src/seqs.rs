//! Sequences built element by element.

use vstd::prelude::*;

verus! {

/// What `f` gives for each element, one after the other.
pub open spec fn gather<A, B>(items: Seq<A>, f: spec_fn(A) -> Seq<B>) -> Seq<B>
    decreases items.len(),
{
    if items.len() == 0 {
        Seq::empty()
    } else {
        gather(items.drop_last(), f) + f(items.last())
    }
}

/// One more element adds what `f` gives for it.
pub proof fn lemma_gather_step<A, B>(items: Seq<A>, i: int, f: spec_fn(A) -> Seq<B>)
    requires
        0 <= i < items.len(),
    ensures
        gather(items.take(i + 1), f) == gather(items.take(i), f) + f(items[i]),
{
    assert(items.take(i + 1).drop_last() =~= items.take(i));
    assert(items.take(i + 1).last() == items[i]);
}

/// The whole sequence is the last of its prefixes, and the empty one the first.
pub proof fn lemma_gather_ends<A, B>(items: Seq<A>, f: spec_fn(A) -> Seq<B>)
    ensures
        gather(items.take(0), f) == Seq::<B>::empty(),
        gather(items.take(items.len() as int), f) == gather(items, f),
{
    assert(items.take(items.len() as int) =~= items);
}

/// Every element of a gathered sequence comes from some item.
pub proof fn lemma_gather_member<A, B>(items: Seq<A>, f: spec_fn(A) -> Seq<B>, b: B)
    ensures
        gather(items, f).contains(b) <==> exists|i: int|
            0 <= i < items.len() && f(#[trigger] items[i]).contains(b),
    decreases items.len(),
{
    if items.len() > 0 {
        let rest = items.drop_last();
        lemma_gather_member(rest, f, b);
        let whole = gather(items, f);
        let head = gather(rest, f);
        let tail = f(items.last());
        if whole.contains(b) {
            let k = choose|k: int| 0 <= k < whole.len() && whole[k] == b;
            if k < head.len() {
                assert(head[k] == b);
                let i = choose|i: int| 0 <= i < rest.len() && f(#[trigger] rest[i]).contains(b);
                assert(f(items[i]).contains(b));
            } else {
                assert(tail[k - head.len()] == b);
                assert(f(items[items.len() - 1]).contains(b));
            }
        }
        if exists|i: int| 0 <= i < items.len() && f(#[trigger] items[i]).contains(b) {
            let i = choose|i: int| 0 <= i < items.len() && f(#[trigger] items[i]).contains(b);
            if i < rest.len() {
                assert(f(rest[i]).contains(b));
                let k = choose|k: int| 0 <= k < head.len() && head[k] == b;
                assert(whole[k] == b);
            } else {
                let k = choose|k: int| 0 <= k < tail.len() && tail[k] == b;
                assert(whole[head.len() + k] == b);
            }
        }
    }
}

/// The first element for which `p` holds.
pub open spec fn first_where<A>(items: Seq<A>, p: spec_fn(A) -> bool) -> Option<A>
    decreases items.len(),
{
    if items.len() == 0 {
        None
    } else if p(items[0]) {
        Some(items[0])
    } else {
        first_where(items.drop_first(), p)
    }
}

/// Passing over an element for which `p` fails does not change what is found.
pub proof fn lemma_first_step<A>(items: Seq<A>, i: int, p: spec_fn(A) -> bool)
    requires
        0 <= i < items.len(),
    ensures
        first_where(items.skip(i), p) == if p(items[i]) {
            Some(items[i])
        } else {
            first_where(items.skip(i + 1), p)
        },
{
    assert(items.skip(i)[0] == items[i]);
    assert(items.skip(i).drop_first() =~= items.skip(i + 1));
}

pub proof fn lemma_first_ends<A>(items: Seq<A>, p: spec_fn(A) -> bool)
    ensures
        items.skip(0) == items,
        first_where(items.skip(items.len() as int), p) == None::<A>,
{
    assert(items.skip(0) =~= items);
}

/// What is found satisfies `p`, and is found wherever something does.
pub proof fn lemma_first_found<A>(items: Seq<A>, p: spec_fn(A) -> bool)
    ensures
        first_where(items, p) matches Some(a) ==> p(a) && items.contains(a),
        first_where(items, p) is None <==> forall|i: int|
            0 <= i < items.len() ==> !p(#[trigger] items[i]),
    decreases items.len(),
{
    if items.len() > 0 {
        let rest = items.drop_first();
        lemma_first_found(rest, p);
        if !p(items[0]) {
            if first_where(rest, p) is Some {
                let a = first_where(rest, p)->0;
                let k = choose|k: int| 0 <= k < rest.len() && rest[k] == a;
                assert(items[k + 1] == a);
            } else {
                assert forall|i: int| 0 <= i < items.len() implies !p(#[trigger] items[i]) by {
                    if i > 0 {
                        assert(rest[i - 1] == items[i]);
                    }
                }
            }
        } else {
            assert(items[0] == first_where(items, p)->0);
        }
    }
}

/// The last element for which `p` holds.
pub open spec fn last_where<A>(items: Seq<A>, p: spec_fn(A) -> bool) -> Option<A>
    decreases items.len(),
{
    if items.len() == 0 {
        None
    } else if p(items.last()) {
        Some(items.last())
    } else {
        last_where(items.drop_last(), p)
    }
}

pub proof fn lemma_last_step<A>(items: Seq<A>, i: int, p: spec_fn(A) -> bool)
    requires
        0 <= i < items.len(),
    ensures
        last_where(items.take(i + 1), p) == if p(items[i]) {
            Some(items[i])
        } else {
            last_where(items.take(i), p)
        },
{
    assert(items.take(i + 1).drop_last() =~= items.take(i));
    assert(items.take(i + 1).last() == items[i]);
}

pub proof fn lemma_last_ends<A>(items: Seq<A>, p: spec_fn(A) -> bool)
    ensures
        last_where(items.take(0), p) == None::<A>,
        items.take(items.len() as int) == items,
{
    assert(items.take(items.len() as int) =~= items);
}

/// How many elements satisfy `p`.
pub open spec fn count_where<A>(items: Seq<A>, p: spec_fn(A) -> bool) -> nat
    decreases items.len(),
{
    if items.len() == 0 {
        0
    } else {
        count_where(items.drop_last(), p) + if p(items.last()) {
            1nat
        } else {
            0nat
        }
    }
}

pub proof fn lemma_count_step<A>(items: Seq<A>, i: int, p: spec_fn(A) -> bool)
    requires
        0 <= i < items.len(),
    ensures
        count_where(items.take(i + 1), p) == count_where(items.take(i), p) + if p(items[i]) {
            1nat
        } else {
            0nat
        },
{
    assert(items.take(i + 1).drop_last() =~= items.take(i));
    assert(items.take(i + 1).last() == items[i]);
}

pub proof fn lemma_count_ends<A>(items: Seq<A>, p: spec_fn(A) -> bool)
    ensures
        count_where(items.take(0), p) == 0,
        items.take(items.len() as int) == items,
        count_where(items, p) <= items.len(),
    decreases items.len(),
{
    assert(items.take(items.len() as int) =~= items);
    if items.len() > 0 {
        lemma_count_ends(items.drop_last(), p);
    }
}

} // verus!
