//! Stable orders.
//!
//! Sorting is described by the listing it produces: the positions of the
//! input in the order in which they come out. A stable listing is determined
//! by the input alone.

use vstd::prelude::*;

use crate::text::{
    lemma_lex_irreflexive, lemma_lex_total, lemma_lex_transitive, lex_lt, same, text_before,
    DeepClone,
};

verus! {

/// `listing` names each of the positions `0..n` once.
pub open spec fn is_listing(listing: Seq<usize>, n: nat) -> bool {
    &&& listing.len() == n
    &&& listing.no_duplicates()
    &&& forall|i: int| 0 <= i < n ==> (#[trigger] listing[i]) < n
}

/// `before` is a strict weak order on the positions `0..n`.
pub open spec fn weak_order(before: spec_fn(int, int) -> bool, n: nat) -> bool {
    &&& forall|i: int| 0 <= i < n ==> !#[trigger] before(i, i)
    &&& forall|i: int, j: int, k: int|
        0 <= i < n && 0 <= j < n && 0 <= k < n && #[trigger] before(i, j) && #[trigger] before(
            j,
            k,
        ) ==> before(i, k)
    &&& forall|i: int, j: int, k: int|
        0 <= i < n && 0 <= j < n && 0 <= k < n && !(#[trigger] before(i, j)) && !(
        #[trigger] before(j, k)) ==> !before(i, k)
}

/// Whether position `a` comes out ahead of position `b`: it is smaller, or
/// neither is and it stood first.
pub open spec fn ahead(before: spec_fn(int, int) -> bool, a: int, b: int) -> bool {
    before(a, b) || (!before(b, a) && a < b)
}

/// The listing goes through `0..n` in the order of `before`, positions that
/// `before` does not separate in their original order.
pub open spec fn stable_listing(
    listing: Seq<usize>,
    n: nat,
    before: spec_fn(int, int) -> bool,
) -> bool {
    &&& is_listing(listing, n)
    &&& forall|i: int, j: int|
        0 <= i < j < n ==> ahead(before, #[trigger] listing[i] as int, #[trigger] listing[j] as int)
}

/// Inserting the next position into a listing gives a listing.
pub proof fn lemma_listing_insert(listing: Seq<usize>, k: usize, at: int)
    requires
        is_listing(listing, k as nat),
        0 <= at <= k,
    ensures
        is_listing(listing.insert(at, k), (k + 1) as nat),
{
    let grown = listing.insert(at, k);
    assert forall|i: int| 0 <= i < k + 1 implies (#[trigger] grown[i]) < k + 1 by {
        if i < at {
            assert(grown[i] == listing[i]);
        } else if i > at {
            assert(grown[i] == listing[i - 1]);
        }
    }
    assert forall|i: int, j: int| 0 <= i < k + 1 && 0 <= j < k + 1 && i != j implies grown[i]
        != grown[j] by {
        let a = if i < at {
            i
        } else {
            i - 1
        };
        let b = if j < at {
            j
        } else {
            j - 1
        };
        if i != at {
            assert(grown[i] == listing[a]);
            assert(listing[a] < k);
        }
        if j != at {
            assert(grown[j] == listing[b]);
            assert(listing[b] < k);
        }
    }
}

/// A stable listing stays stable when the next position is inserted behind
/// everything that is not larger.
pub proof fn lemma_stable_insert(
    listing: Seq<usize>,
    k: usize,
    at: int,
    n: nat,
    before: spec_fn(int, int) -> bool,
)
    requires
        k < n,
        weak_order(before, n),
        stable_listing(listing, k as nat, before),
        0 <= at <= k,
        forall|j: int| at <= j < k ==> before(k as int, #[trigger] listing[j] as int),
        at > 0 ==> !before(k as int, listing[at - 1] as int),
    ensures
        stable_listing(listing.insert(at, k), (k + 1) as nat, before),
{
    let grown = listing.insert(at, k);
    lemma_listing_insert(listing, k, at);
    assert forall|i: int, j: int| 0 <= i < j < k + 1 implies ahead(
        before,
        #[trigger] grown[i] as int,
        #[trigger] grown[j] as int,
    ) by {
        if i < at && j < at {
            assert(grown[i] == listing[i] && grown[j] == listing[j]);
        } else if i < at && j == at {
            assert(grown[i] == listing[i] && grown[j] == k);
            assert(listing[i] < k);
            assert(listing[at - 1] < k);
            if i < at - 1 {
                assert(ahead(before, listing[i] as int, listing[at - 1] as int));
                if before(k as int, listing[i] as int) {
                    if before(listing[i] as int, listing[at - 1] as int) {
                        assert(before(k as int, listing[at - 1] as int));
                    } else {
                        assert(!before(listing[at - 1] as int, listing[i] as int));
                        assert(!before(k as int, listing[at - 1] as int));
                        assert(!before(k as int, listing[i] as int));
                    }
                }
            }
        } else if i < at && j > at {
            assert(grown[i] == listing[i] && grown[j] == listing[j - 1]);
        } else if i == at {
            assert(grown[j] == listing[j - 1]);
        } else {
            assert(grown[i] == listing[i - 1] && grown[j] == listing[j - 1]);
        }
    }
}

/// Two stable listings of the same positions are the same listing.
pub proof fn lemma_listing_unique(
    left: Seq<usize>,
    right: Seq<usize>,
    n: nat,
    before: spec_fn(int, int) -> bool,
)
    requires
        weak_order(before, n),
        stable_listing(left, n, before),
        stable_listing(right, n, before),
    ensures
        left == right,
{
    assert forall|i: int| 0 <= i < n implies left[i] == right[i] by {
        lemma_listing_agrees(left, right, n, before, i);
    }
    assert(left =~= right);
}

/// A listing names every position.
pub proof fn lemma_listing_hits(listing: Seq<usize>, n: nat, value: usize)
    requires
        is_listing(listing, n),
        value < n,
    ensures
        listing.contains(value),
{
    if !listing.contains(value) {
        let ints = Seq::new(n, |i: int| listing[i] as int);
        assert(ints.no_duplicates()) by {
            assert forall|i: int, j: int| 0 <= i < n && 0 <= j < n && i != j implies ints[i]
                != ints[j] by {
                assert(listing[i] != listing[j]);
            }
        }
        let held = ints.to_set();
        let all = vstd::set_lib::set_int_range(0, n as int);
        vstd::set_lib::lemma_int_range(0, n as int);
        ints.unique_seq_to_set();
        assert forall|x: int| held.contains(x) implies all.contains(x) && x != value as int by {
            let i = choose|i: int| 0 <= i < ints.len() && ints[i] == x;
            assert(listing[i] < n);
            if x == value as int {
                assert(listing[i] == value);
            }
        }
        assert(held.subset_of(all.remove(value as int)));
        vstd::set_lib::lemma_len_subset(held, all.remove(value as int));
    }
}

proof fn lemma_listing_agrees(
    left: Seq<usize>,
    right: Seq<usize>,
    n: nat,
    before: spec_fn(int, int) -> bool,
    i: int,
)
    requires
        weak_order(before, n),
        stable_listing(left, n, before),
        stable_listing(right, n, before),
        0 <= i < n,
    ensures
        left[i] == right[i],
    decreases i,
{
    assert forall|j: int| 0 <= j < i implies left[j] == right[j] by {
        lemma_listing_agrees(left, right, n, before, j);
    }
    if left[i] != right[i] {
        assert(left[i] < n && right[i] < n);
        lemma_listing_hits(right, n, left[i]);
        lemma_listing_hits(left, n, right[i]);
        let a = choose|a: int| 0 <= a < n && right[a] == left[i];
        let b = choose|b: int| 0 <= b < n && left[b] == right[i];
        if a < i {
            assert(left[a] == left[i]);
            assert(false);
        }
        if b < i {
            assert(right[b] == right[i]);
            assert(false);
        }
        assert(a > i && b > i);
        assert(ahead(before, left[i] as int, left[b] as int));
        assert(ahead(before, right[i] as int, right[a] as int));
        let x = left[i] as int;
        let y = right[i] as int;
        assert(ahead(before, x, y) && ahead(before, y, x));
        if before(x, y) && before(y, x) {
            assert(before(x, x));
        }
    }
}

/// The order of texts at positions of `keys`.
pub open spec fn text_order(keys: Seq<Seq<char>>) -> spec_fn(int, int) -> bool {
    |i: int, j: int| lex_lt(keys[i], keys[j])
}

pub proof fn lemma_text_order(keys: Seq<Seq<char>>)
    ensures
        weak_order(text_order(keys), keys.len()),
{
    let before = text_order(keys);
    let n = keys.len();
    assert forall|i: int| 0 <= i < n implies !#[trigger] before(i, i) by {
        lemma_lex_irreflexive(keys[i]);
    }
    assert forall|i: int, j: int, k: int|
        0 <= i < n && 0 <= j < n && 0 <= k < n && #[trigger] before(i, j) && #[trigger] before(
            j,
            k,
        ) implies before(i, k) by {
        lemma_lex_transitive(keys[i], keys[j], keys[k]);
    }
    assert forall|i: int, j: int, k: int|
        0 <= i < n && 0 <= j < n && 0 <= k < n && !(#[trigger] before(i, j)) && !(
        #[trigger] before(j, k)) implies !before(i, k) by {
        lemma_lex_total(keys[i], keys[j]);
        lemma_lex_total(keys[j], keys[k]);
        if before(i, k) {
            if keys[i] != keys[j] {
                lemma_lex_transitive(keys[j], keys[i], keys[k]);
            }
        }
    }
}

/// Lexicographic order of lists of texts.
pub open spec fn list_lt(a: Seq<Seq<char>>, b: Seq<Seq<char>>) -> bool
    decreases a.len(),
{
    if b.len() == 0 {
        false
    } else if a.len() == 0 {
        true
    } else if a[0] == b[0] {
        list_lt(a.drop_first(), b.drop_first())
    } else {
        lex_lt(a[0], b[0])
    }
}

proof fn lemma_list_irreflexive(a: Seq<Seq<char>>)
    ensures
        !list_lt(a, a),
    decreases a.len(),
{
    if a.len() > 0 {
        lemma_list_irreflexive(a.drop_first());
    }
}

proof fn lemma_list_transitive(a: Seq<Seq<char>>, b: Seq<Seq<char>>, c: Seq<Seq<char>>)
    requires
        list_lt(a, b),
        list_lt(b, c),
    ensures
        list_lt(a, c),
    decreases a.len(),
{
    if a.len() > 0 && b.len() > 0 && c.len() > 0 {
        if a[0] == b[0] && b[0] == c[0] {
            lemma_list_transitive(a.drop_first(), b.drop_first(), c.drop_first());
        } else if a[0] != b[0] && b[0] != c[0] {
            lemma_lex_transitive(a[0], b[0], c[0]);
            lemma_lex_irreflexive(a[0]);
        }
    }
}

proof fn lemma_list_total(a: Seq<Seq<char>>, b: Seq<Seq<char>>)
    ensures
        a == b || list_lt(a, b) || list_lt(b, a),
    decreases a.len(),
{
    if a.len() == 0 {
        if b.len() == 0 {
            assert(a =~= b);
        }
    } else if b.len() > 0 {
        if a[0] == b[0] {
            lemma_list_total(a.drop_first(), b.drop_first());
            if a.drop_first() == b.drop_first() {
                assert(a =~= seq![a[0]] + a.drop_first());
                assert(b =~= seq![b[0]] + b.drop_first());
            }
        } else {
            lemma_lex_total(a[0], b[0]);
        }
    }
}

/// The order of lists of texts at positions of `keys`.
pub open spec fn list_order(keys: Seq<Seq<Seq<char>>>) -> spec_fn(int, int) -> bool {
    |i: int, j: int| list_lt(keys[i], keys[j])
}

pub proof fn lemma_list_order(keys: Seq<Seq<Seq<char>>>)
    ensures
        weak_order(list_order(keys), keys.len()),
{
    let before = list_order(keys);
    let n = keys.len();
    assert forall|i: int| 0 <= i < n implies !#[trigger] before(i, i) by {
        lemma_list_irreflexive(keys[i]);
    }
    assert forall|i: int, j: int, k: int|
        0 <= i < n && 0 <= j < n && 0 <= k < n && #[trigger] before(i, j) && #[trigger] before(
            j,
            k,
        ) implies before(i, k) by {
        lemma_list_transitive(keys[i], keys[j], keys[k]);
    }
    assert forall|i: int, j: int, k: int|
        0 <= i < n && 0 <= j < n && 0 <= k < n && !(#[trigger] before(i, j)) && !(
        #[trigger] before(j, k)) implies !before(i, k) by {
        lemma_list_total(keys[i], keys[j]);
        lemma_list_total(keys[j], keys[k]);
        if before(i, k) {
            if keys[i] != keys[j] {
                lemma_list_transitive(keys[j], keys[i], keys[k]);
            }
        }
    }
}

/// Whether the list `a` comes before the list `b`.
fn list_before(a: &Vec<String>, b: &Vec<String>) -> (r: bool)
    ensures
        r == list_lt(a.deep_view(), b.deep_view()),
{
    let ghost left = a.deep_view();
    let ghost right = b.deep_view();
    let mut i: usize = 0;
    assert(left.skip(0) =~= left);
    assert(right.skip(0) =~= right);
    while i < a.len() && i < b.len()
        invariant
            left == a.deep_view(),
            right == b.deep_view(),
            i <= a@.len(),
            i <= b@.len(),
            list_lt(left, right) == list_lt(left.skip(i as int), right.skip(i as int)),
        decreases a@.len() - i,
    {
        assert(left.skip(i as int).drop_first() =~= left.skip(i as int + 1));
        assert(right.skip(i as int).drop_first() =~= right.skip(i as int + 1));
        assert(left.skip(i as int)[0] == a@[i as int]@);
        assert(right.skip(i as int)[0] == b@[i as int]@);
        if !same(a[i].as_str(), b[i].as_str()) {
            return text_before(a[i].as_str(), b[i].as_str());
        }
        i = i + 1;
    }
    i < b.len()
}

/// The stable listing of `keys` in byte order.
pub fn order_texts(keys: &Vec<String>) -> (listing: Vec<usize>)
    ensures
        stable_listing(listing@, keys@.len(), text_order(keys.deep_view())),
{
    let ghost before = text_order(keys.deep_view());
    proof {
        lemma_text_order(keys.deep_view());
    }
    let mut listing: Vec<usize> = Vec::new();
    for k in 0..keys.len()
        invariant
            before == text_order(keys.deep_view()),
            weak_order(before, keys@.len()),
            stable_listing(listing@, k as nat, before),
    {
        let mut at: usize = k;
        while at > 0 && text_before(keys[k].as_str(), keys[listing[at - 1]].as_str())
            invariant
                k < keys@.len(),
                before == text_order(keys.deep_view()),
                stable_listing(listing@, k as nat, before),
                at <= k,
                forall|j: int| at <= j < k ==> before(k as int, #[trigger] listing@[j] as int),
            decreases at,
        {
            at = at - 1;
        }
        proof {
            lemma_stable_insert(listing@, k, at as int, keys@.len(), before);
        }
        listing.insert(at, k);
    }
    listing
}

/// The stable listing of lists of texts in lexicographic order.
pub fn order_lists(keys: &Vec<Vec<String>>) -> (listing: Vec<usize>)
    ensures
        stable_listing(listing@, keys@.len(), list_order(keys.deep_view())),
{
    let ghost before = list_order(keys.deep_view());
    proof {
        lemma_list_order(keys.deep_view());
    }
    let mut listing: Vec<usize> = Vec::new();
    for k in 0..keys.len()
        invariant
            before == list_order(keys.deep_view()),
            weak_order(before, keys@.len()),
            stable_listing(listing@, k as nat, before),
    {
        let mut at: usize = k;
        while at > 0 && list_before(&keys[k], &keys[listing[at - 1]])
            invariant
                k < keys@.len(),
                before == list_order(keys.deep_view()),
                stable_listing(listing@, k as nat, before),
                at <= k,
                forall|j: int| at <= j < k ==> before(k as int, #[trigger] listing@[j] as int),
            decreases at,
        {
            at = at - 1;
        }
        proof {
            lemma_stable_insert(listing@, k, at as int, keys@.len(), before);
        }
        listing.insert(at, k);
    }
    listing
}

/// `items` in the order of `listing`.
pub open spec fn listed<T>(items: Seq<T>, listing: Seq<usize>) -> Seq<T> {
    Seq::new(listing.len(), |i: int| items[listing[i] as int])
}

pub fn list_items<T: DeepClone>(items: &Vec<T>, listing: &Vec<usize>) -> (r: Vec<T>)
    requires
        is_listing(listing@, items@.len()),
    ensures
        r.deep_view() == listed(items.deep_view(), listing@),
{
    let mut r: Vec<T> = Vec::new();
    for i in 0..listing.len()
        invariant
            is_listing(listing@, items@.len()),
            r@.len() == i,
            forall|j: int|
                0 <= j < i ==> r@[j].deep_view() == items@[listing@[j] as int].deep_view(),
    {
        assert(listing@[i as int] < items@.len());
        r.push(items[listing[i]].deep_clone());
    }
    assert(r.deep_view() =~= listed(items.deep_view(), listing@));
    r
}

/// The stable listing of `0..n` in the order of `before`.
pub open spec fn the_listing(n: nat, before: spec_fn(int, int) -> bool) -> Seq<usize> {
    choose|listing: Seq<usize>| #[trigger] stable_listing(listing, n, before)
}

/// The texts of `items` in byte order.
pub open spec fn sorted_texts(items: Seq<Seq<char>>) -> Seq<Seq<char>> {
    listed(items, the_listing(items.len(), text_order(items)))
}

/// The lists of `items` in lexicographic order.
pub open spec fn sorted_lists(items: Seq<Seq<Seq<char>>>) -> Seq<Seq<Seq<char>>> {
    listed(items, the_listing(items.len(), list_order(items)))
}

/// A stable listing is the one that [`the_listing`] names.
pub proof fn lemma_the_listing(listing: Seq<usize>, n: nat, before: spec_fn(int, int) -> bool)
    requires
        weak_order(before, n),
        stable_listing(listing, n, before),
    ensures
        the_listing(n, before) == listing,
{
    lemma_listing_unique(the_listing(n, before), listing, n, before);
}

pub fn sort_texts(items: &Vec<String>) -> (r: Vec<String>)
    ensures
        r.deep_view() == sorted_texts(items.deep_view()),
        r@.len() == items@.len(),
{
    let listing: Vec<usize> = order_texts(items);
    proof {
        lemma_text_order(items.deep_view());
        lemma_the_listing(listing@, items@.len(), text_order(items.deep_view()));
    }
    let r: Vec<String> = list_items(items, &listing);
    assert(r.deep_view().len() == r@.len());
    r
}

pub fn sort_lists(items: &Vec<Vec<String>>) -> (r: Vec<Vec<String>>)
    ensures
        r.deep_view() == sorted_lists(items.deep_view()),
        r@.len() == items@.len(),
{
    let listing: Vec<usize> = order_lists(items);
    proof {
        lemma_list_order(items.deep_view());
        lemma_the_listing(listing@, items@.len(), list_order(items.deep_view()));
    }
    let r: Vec<Vec<String>> = list_items(items, &listing);
    assert(r.deep_view().len() == r@.len());
    r
}

/// Some stable listing exists, and so [`the_listing`] is one.
pub proof fn lemma_listing_exists(n: nat, before: spec_fn(int, int) -> bool)
    requires
        n <= usize::MAX,
        weak_order(before, n),
    ensures
        stable_listing(the_listing(n, before), n, before),
{
    let listing = lemma_some_listing(n, n, before);
    lemma_the_listing(listing, n, before);
}

/// Some stable listing of texts exists, and so [`the_listing`] is one.
pub proof fn lemma_text_listing(items: Seq<Seq<char>>)
    ensures
        stable_listing(
            the_listing(items.len(), text_order(items)),
            items.len(),
            text_order(items),
        ) || items.len() > usize::MAX,
{
    if items.len() <= usize::MAX {
        lemma_text_order(items);
        lemma_listing_exists(items.len(), text_order(items));
    }
}

/// Some stable listing of lists of texts exists.
pub proof fn lemma_list_listing(items: Seq<Seq<Seq<char>>>)
    ensures
        stable_listing(
            the_listing(items.len(), list_order(items)),
            items.len(),
            list_order(items),
        ) || items.len() > usize::MAX,
{
    if items.len() <= usize::MAX {
        lemma_list_order(items);
        lemma_listing_exists(items.len(), list_order(items));
    }
}

proof fn lemma_some_listing(k: nat, n: nat, before: spec_fn(int, int) -> bool) -> (listing: Seq<
    usize,
>)
    requires
        k <= n <= usize::MAX,
        weak_order(before, n),
    ensures
        stable_listing(listing, k, before),
    decreases k,
{
    if k == 0 {
        Seq::empty()
    } else {
        let shorter = lemma_some_listing((k - 1) as nat, n, before);
        let at = lemma_place(shorter, (k - 1) as usize, n, before, k - 1);
        lemma_stable_insert(shorter, (k - 1) as usize, at, n, before);
        shorter.insert(at, (k - 1) as usize)
    }
}

proof fn lemma_place(
    listing: Seq<usize>,
    k: usize,
    n: nat,
    before: spec_fn(int, int) -> bool,
    at: int,
) -> (place: int)
    requires
        k < n,
        is_listing(listing, k as nat),
        0 <= at <= k,
        forall|j: int| at <= j < k ==> before(k as int, #[trigger] listing[j] as int),
    ensures
        0 <= place <= k,
        forall|j: int| place <= j < k ==> before(k as int, #[trigger] listing[j] as int),
        place > 0 ==> !before(k as int, listing[place - 1] as int),
    decreases at,
{
    if at > 0 && before(k as int, listing[at - 1] as int) {
        lemma_place(listing, k, n, before, at - 1)
    } else {
        at
    }
}

/// Sorting sorted texts changes nothing.
pub proof fn lemma_sort_texts_again(items: Seq<Seq<char>>)
    requires
        items.len() <= usize::MAX,
    ensures
        sorted_texts(sorted_texts(items)) == sorted_texts(items),
{
    let n = items.len();
    let listing = the_listing(n, text_order(items));
    lemma_text_listing(items);
    let sorted = sorted_texts(items);
    let before = text_order(sorted);
    let same_places = Seq::new(n, |i: int| i as usize);
    assert forall|i: int, j: int| 0 <= i < j < n implies ahead(
        before,
        #[trigger] same_places[i] as int,
        #[trigger] same_places[j] as int,
    ) by {
        assert(listing[i] < n && listing[j] < n);
        assert(ahead(text_order(items), listing[i] as int, listing[j] as int));
        lemma_text_order(items);
        if text_order(items)(listing[j] as int, listing[i] as int) {
            assert(text_order(items)(listing[j] as int, listing[j] as int));
        }
    }
    assert(same_places.no_duplicates());
    assert(stable_listing(same_places, n, before));
    lemma_text_order(sorted);
    lemma_the_listing(same_places, n, before);
    assert(listed(sorted, same_places) =~= sorted);
}

/// Lists that stand in order are what sorting them gives.
pub proof fn lemma_lists_in_order(items: Seq<Seq<Seq<char>>>)
    requires
        items.len() <= usize::MAX,
        forall|i: int, j: int|
            0 <= i < j < items.len() ==> !list_lt(#[trigger] items[j], #[trigger] items[i]),
    ensures
        sorted_lists(items) == items,
{
    let n = items.len();
    let before = list_order(items);
    let same_places = Seq::new(n, |i: int| i as usize);
    assert forall|i: int, j: int| 0 <= i < j < n implies ahead(
        before,
        #[trigger] same_places[i] as int,
        #[trigger] same_places[j] as int,
    ) by {
        assert(!list_lt(items[j], items[i]));
    }
    assert(same_places.no_duplicates());
    assert(stable_listing(same_places, n, before));
    lemma_list_order(items);
    lemma_the_listing(same_places, n, before);
    assert(listed(items, same_places) =~= items);
}

} // verus!
