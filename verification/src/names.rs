//! Maps keyed by text, kept in key order.

use vstd::prelude::*;

use crate::text::{
    lemma_lex_irreflexive, lemma_lex_total, lemma_lex_transitive, lex_lt, same, text_before,
    DeepClone,
};

verus! {

/// The entries are in strictly ascending key order, so no key occurs twice.
pub open spec fn ascending<W>(entries: Seq<(Seq<char>, W)>) -> bool {
    forall|i: int, j: int|
        0 <= i < j < entries.len() ==> lex_lt(
            (#[trigger] entries[i]).0,
            (#[trigger] entries[j]).0,
        )
}

/// Whether the entries hold `key`.
pub open spec fn has_name<W>(entries: Seq<(Seq<char>, W)>, key: Seq<char>) -> bool {
    exists|i: int| 0 <= i < entries.len() && (#[trigger] entries[i]).0 == key
}

/// The position of `key` among the entries that hold it.
pub open spec fn name_index<W>(entries: Seq<(Seq<char>, W)>, key: Seq<char>) -> int {
    choose|i: int| 0 <= i < entries.len() && (#[trigger] entries[i]).0 == key
}

/// What the entries give for `key`.
pub open spec fn named<W>(entries: Seq<(Seq<char>, W)>, key: Seq<char>) -> Option<W> {
    if has_name(entries, key) {
        Some(entries[name_index(entries, key)].1)
    } else {
        None
    }
}

/// In ascending entries a key sits at one position only.
pub proof fn lemma_name_unique<W>(entries: Seq<(Seq<char>, W)>, i: int)
    requires
        ascending(entries),
        0 <= i < entries.len(),
    ensures
        has_name(entries, entries[i].0),
        name_index(entries, entries[i].0) == i,
        named(entries, entries[i].0) == Some(entries[i].1),
{
    let j = name_index(entries, entries[i].0);
    assert(entries[i].0 == entries[i].0);
    assert(has_name(entries, entries[i].0));
    lemma_lex_irreflexive(entries[i].0);
    if j < i {
        assert(lex_lt(entries[j].0, entries[i].0));
    } else if i < j {
        assert(lex_lt(entries[i].0, entries[j].0));
    }
}

/// The names are in strictly ascending order, so none occurs twice.
pub open spec fn ascending_names(names: Seq<Seq<char>>) -> bool {
    forall|i: int, j: int|
        0 <= i < j < names.len() ==> lex_lt(#[trigger] names[i], #[trigger] names[j])
}

/// The names with `name` among them, in order.
pub open spec fn with_member(names: Seq<Seq<char>>, name: Seq<char>) -> Seq<Seq<char>> {
    names.filter(|other: Seq<char>| lex_lt(other, name)) + seq![name] + names.filter(
        |other: Seq<char>| lex_lt(name, other),
    )
}

/// The names in `more` added one by one.
pub open spec fn with_members(names: Seq<Seq<char>>, more: Seq<Seq<char>>) -> Seq<Seq<char>>
    decreases more.len(),
{
    if more.len() == 0 {
        names
    } else {
        with_member(with_members(names, more.drop_last()), more.last())
    }
}

proof fn lemma_name_split(names: Seq<Seq<char>>, name: Seq<char>) -> (at: int)
    requires
        ascending_names(names),
    ensures
        0 <= at <= names.len(),
        forall|j: int| 0 <= j < at ==> lex_lt(#[trigger] names[j], name),
        at < names.len() ==> !lex_lt(names[at], name),
    decreases names.len(),
{
    if names.len() == 0 {
        0
    } else if lex_lt(names.last(), name) {
        assert forall|j: int| 0 <= j < names.len() implies lex_lt(#[trigger] names[j], name) by {
            if j < names.len() - 1 {
                lemma_lex_transitive(names[j], names.last(), name);
            }
        }
        names.len() as int
    } else {
        let at = lemma_name_split(names.drop_last(), name);
        assert forall|j: int| 0 <= j < at implies lex_lt(#[trigger] names[j], name) by {
            assert(names.drop_last()[j] == names[j]);
        }
        at
    }
}

/// How [`with_member`] comes apart at the place of the name.
proof fn lemma_member_parts(names: Seq<Seq<char>>, name: Seq<char>, at: int, from: int)
    requires
        ascending_names(names),
        0 <= at <= from <= names.len(),
        forall|j: int| 0 <= j < at ==> lex_lt(#[trigger] names[j], name),
        at < names.len() ==> !lex_lt(names[at], name),
        from == if at < names.len() && names[at] == name {
            at + 1
        } else {
            at
        },
    ensures
        with_member(names, name) == names.take(at) + seq![name] + names.skip(from),
        ascending_names(with_member(names, name)),
{
    let below = |other: Seq<char>| lex_lt(other, name);
    let above = |other: Seq<char>| lex_lt(name, other);
    lemma_lex_irreflexive(name);
    assert forall|j: int| from <= j < names.len() implies above(#[trigger] names[j]) by {
        lemma_lex_total(names[at], name);
        if at < j {
            assert(lex_lt(names[at], names[j]));
            if names[at] != name {
                lemma_lex_transitive(name, names[at], names[j]);
            }
        }
    }
    assert forall|j: int| at <= j < names.len() implies !below(#[trigger] names[j]) by {
        if j >= from {
            assert(above(names[j]));
            if below(names[j]) {
                lemma_lex_transitive(name, names[j], name);
            }
        }
    }
    assert forall|j: int| 0 <= j < from implies !above(#[trigger] names[j]) by {
        if j < at {
            assert(below(names[j]));
            if above(names[j]) {
                lemma_lex_transitive(name, names[j], name);
            }
        }
    }
    lemma_filter_prefix(names, below, at);
    lemma_filter_suffix(names, above, from);
    let grown = with_member(names, name);
    assert(grown =~= names.take(at) + seq![name] + names.skip(from));
    assert forall|i: int, j: int| 0 <= i < j < grown.len() implies lex_lt(
        #[trigger] grown[i],
        #[trigger] grown[j],
    ) by {
        if i < at {
            assert(grown[i] == names[i]);
            if j < at {
                assert(grown[j] == names[j]);
            } else if j > at {
                assert(grown[j] == names[from + (j - at - 1)]);
            }
        } else {
            assert(grown[j] == names[from + (j - at - 1)]);
            assert(above(names[from + (j - at - 1)]));
            if i > at {
                assert(grown[i] == names[from + (i - at - 1)]);
            }
        }
    }
}

/// Adding a name keeps the order and adds that name only.
pub proof fn lemma_with_member(names: Seq<Seq<char>>, name: Seq<char>)
    requires
        ascending_names(names),
    ensures
        ascending_names(with_member(names, name)),
        forall|other: Seq<char>| #[trigger]
            with_member(names, name).contains(other) <==> other == name || names.contains(other),
{
    let at = lemma_name_split(names, name);
    let from = if at < names.len() && names[at] == name {
        at + 1
    } else {
        at
    };
    lemma_member_parts(names, name, at, from);
    let grown = with_member(names, name);
    assert forall|other: Seq<char>| #[trigger] grown.contains(other) <==> other == name
        || names.contains(other) by {
        if grown.contains(other) {
            let k = choose|k: int| 0 <= k < grown.len() && grown[k] == other;
            if k < at {
                assert(names[k] == other);
            } else if k > at {
                assert(names[from + (k - at - 1)] == other);
            }
        }
        if names.contains(other) {
            let k = choose|k: int| 0 <= k < names.len() && names[k] == other;
            if k < at {
                assert(grown[k] == other);
            } else if k >= from {
                assert(grown[k - from + at + 1] == other);
            } else {
                assert(grown[at] == other);
            }
        }
        if other == name {
            assert(grown[at] == name);
        }
    }
}

/// Adding names keeps the order and adds those names only.
pub proof fn lemma_with_members(names: Seq<Seq<char>>, more: Seq<Seq<char>>)
    requires
        ascending_names(names),
    ensures
        ascending_names(with_members(names, more)),
        forall|other: Seq<char>| #[trigger]
            with_members(names, more).contains(other) <==> names.contains(other) || more.contains(
                other,
            ),
    decreases more.len(),
{
    if more.len() > 0 {
        let rest = more.drop_last();
        lemma_with_members(names, rest);
        lemma_with_member(with_members(names, rest), more.last());
        assert forall|other: Seq<char>| #[trigger]
            with_members(names, more).contains(other) <==> names.contains(other) || more.contains(
                other,
            ) by {
            if more.contains(other) {
                let k = choose|k: int| 0 <= k < more.len() && more[k] == other;
                if k < rest.len() {
                    assert(rest[k] == other);
                }
            }
            if rest.contains(other) {
                let k = choose|k: int| 0 <= k < rest.len() && rest[k] == other;
                assert(more[k] == other);
            }
            assert(more[more.len() - 1] == more.last());
        }
    }
}

proof fn lemma_member_inserted(
    copied: Seq<String>,
    before: Seq<Seq<char>>,
    added: String,
    at: int,
    present: bool,
    names: Vec<String>,
)
    requires
        ascending_names(before),
        copied.len() == before.len(),
        forall|i: int| 0 <= i < copied.len() ==> (#[trigger] copied[i])@ == before[i],
        0 <= at <= before.len(),
        forall|j: int| 0 <= j < at ==> lex_lt(#[trigger] before[j], added@),
        at < before.len() ==> !lex_lt(before[at], added@),
        present == (at < before.len() && before[at] == added@),
        if present {
            names@ == copied
        } else {
            names@ == copied.insert(at, added)
        },
    ensures
        names.deep_view() == with_member(before, added@),
        forall|i: int, j: int|
            0 <= i < j < names@.len() ==> lex_lt(
                (#[trigger] names@[i])@,
                (#[trigger] names@[j])@,
            ),
{
    let from = if present {
        at + 1
    } else {
        at
    };
    lemma_member_parts(before, added@, at, from);
    let grown = before.take(at) + seq![added@] + before.skip(from);
    if present {
        assert(names.deep_view() =~= grown);
    } else {
        assert(names.deep_view() =~= grown);
    }
    assert forall|i: int, j: int| 0 <= i < j < names@.len() implies lex_lt(
        (#[trigger] names@[i])@,
        (#[trigger] names@[j])@,
    ) by {
        assert(lex_lt(names.deep_view()[i], names.deep_view()[j]));
    }
}

fn place_of(names: &Vec<String>, name: &str) -> (at: usize)
    ensures
        at <= names@.len(),
        forall|j: int| 0 <= j < at ==> lex_lt(#[trigger] names.deep_view()[j], name@),
        at < names@.len() ==> !lex_lt(names.deep_view()[at as int], name@),
{
    let mut at: usize = 0;
    while at < names.len() && text_before(names[at].as_str(), name)
        invariant
            at <= names@.len(),
            forall|j: int| 0 <= j < at ==> lex_lt(#[trigger] names.deep_view()[j], name@),
        decreases names@.len() - at,
    {
        at = at + 1;
    }
    at
}

fn insert_name(names: &Vec<String>, name: &str) -> (r: Vec<String>)
    requires
        forall|i: int, j: int|
            0 <= i < j < names@.len() ==> lex_lt(
                (#[trigger] names@[i])@,
                (#[trigger] names@[j])@,
            ),
    ensures
        r.deep_view() == with_member(names.deep_view(), name@),
        forall|i: int, j: int|
            0 <= i < j < r@.len() ==> lex_lt((#[trigger] r@[i])@, (#[trigger] r@[j])@),
{
    let at: usize = place_of(names, name);
    let present: bool = at < names.len() && same(names[at].as_str(), name);
    let mut r: Vec<String> = names.deep_clone();
    let ghost before = names.deep_view();
    let ghost copied = r@;
    let owned: String = name.to_owned();
    let ghost added = owned;
    assert(r.deep_view().len() == copied.len());
    assert forall|i: int| 0 <= i < copied.len() implies (#[trigger] copied[i])@ == before[i] by {
        assert(r.deep_view()[i] == copied[i]@);
    }
    assert(ascending_names(before)) by {
        assert forall|i: int, j: int| 0 <= i < j < before.len() implies lex_lt(
            #[trigger] before[i],
            #[trigger] before[j],
        ) by {
            assert(lex_lt(names@[i]@, names@[j]@));
        }
    }
    if !present {
        r.insert(at, owned);
    }
    proof {
        lemma_member_inserted(copied, before, added, at as int, present, r);
    }
    r
}

/// A set of names, gone through in byte order.
#[derive(Debug, PartialEq, Eq)]
pub struct NameSet {
    names: Vec<String>,
}

impl DeepView for NameSet {
    type V = Seq<Seq<char>>;

    closed spec fn deep_view(&self) -> Seq<Seq<char>> {
        self.names.deep_view()
    }
}

impl NameSet {
    #[verifier::type_invariant]
    spec fn in_order(self) -> bool {
        forall|i: int, j: int|
            0 <= i < j < self.names@.len() ==> lex_lt(
                (#[trigger] self.names@[i])@,
                (#[trigger] self.names@[j])@,
            )
    }

    /// The empty set.
    pub fn new() -> (set: Self)
        ensures
            set.deep_view() == Seq::<Seq<char>>::empty(),
    {
        let set = NameSet { names: Vec::new() };
        assert(set.deep_view() =~= Seq::<Seq<char>>::empty());
        set
    }

    pub fn len(&self) -> (n: usize)
        ensures
            n == self.deep_view().len(),
            ascending_names(self.deep_view()),
    {
        proof {
            use_type_invariant(self);
        }
        self.names.len()
    }

    /// The name at position `i`.
    pub fn at(&self, i: usize) -> (name: &String)
        requires
            i < self.deep_view().len(),
        ensures
            name@ == self.deep_view()[i as int],
    {
        &self.names[i]
    }

    pub fn contains(&self, name: &str) -> (r: bool)
        ensures
            r == self.deep_view().contains(name@),
    {
        let list: &[String] = self.names.as_slice();
        assert(list.deep_view() =~= self.deep_view());
        crate::text::holds(list, name)
    }

    /// The names as a list.
    pub fn to_vec(&self) -> (r: Vec<String>)
        ensures
            r.deep_view() == self.deep_view(),
            ascending_names(r.deep_view()),
    {
        proof {
            use_type_invariant(self);
        }
        self.names.deep_clone()
    }

    /// Adds a name.
    pub fn insert(&mut self, name: &str)
        ensures
            final(self).deep_view() == with_member(old(self).deep_view(), name@),
    {
        proof {
            use_type_invariant(&*self);
        }
        let names: Vec<String> = insert_name(&self.names, name);
        *self = NameSet { names };
    }

    /// Adds every name of a list.
    pub fn extend(&mut self, more: &Vec<String>)
        ensures
            final(self).deep_view() == with_members(old(self).deep_view(), more.deep_view()),
    {
        let ghost before = self.deep_view();
        let ghost views = more.deep_view();
        assert(views.take(0) =~= Seq::<Seq<char>>::empty());
        for i in 0..more.len()
            invariant
                views == more.deep_view(),
                self.deep_view() == with_members(before, views.take(i as int)),
        {
            assert(views.take(i as int + 1).drop_last() =~= views.take(i as int));
            self.insert(more[i].as_str());
        }
        assert(views.take(views.len() as int) =~= views);
    }
}

impl DeepClone for NameSet {
    fn deep_clone(&self) -> (copy: Self) {
        proof {
            use_type_invariant(self);
        }
        let names: Vec<String> = self.names.deep_clone();
        proof {
            assert(names@.len() == names.deep_view().len());
            assert(self.names@.len() == self.names.deep_view().len());
            assert forall|i: int| 0 <= i < names@.len() implies (#[trigger] names@[i])@
                == self.names@[i]@ by {
                assert(names.deep_view()[i] == self.names.deep_view()[i]);
            }
        }
        NameSet { names }
    }
}

impl Clone for NameSet {
    fn clone(&self) -> (copy: Self)
        ensures
            copy.deep_view() == self.deep_view(),
    {
        self.deep_clone()
    }
}

impl Default for NameSet {
    fn default() -> (set: Self)
        ensures
            set.deep_view() == Seq::<Seq<char>>::empty(),
    {
        NameSet::new()
    }
}

/// The entries with `key` set to `value`, everything else unchanged and in
/// order.
pub open spec fn with_name<W>(
    entries: Seq<(Seq<char>, W)>,
    key: Seq<char>,
    value: W,
) -> Seq<(Seq<char>, W)> {
    entries.filter(|entry: (Seq<char>, W)| lex_lt(entry.0, key)) + seq![(key, value)]
        + entries.filter(|entry: (Seq<char>, W)| lex_lt(key, entry.0))
}

/// Setting a key keeps the order, gives that key its value and leaves every
/// other key as it was.
pub proof fn lemma_with_name<W>(entries: Seq<(Seq<char>, W)>, key: Seq<char>, value: W)
    requires
        ascending(entries),
    ensures
        ascending(with_name(entries, key, value)),
        forall|name: Seq<char>|
            #![trigger named(with_name(entries, key, value), name)]
            named(with_name(entries, key, value), name) == if name == key {
                Some(value)
            } else {
                named(entries, name)
            },
{
    let at = lemma_split_point(entries, key);
    let from = if at < entries.len() && entries[at].0 == key {
        at + 1
    } else {
        at
    };
    let item = (key, value);
    lemma_with_name_parts(entries, item, at, from);
    let after = with_name(entries, key, value);
    lemma_inserted(entries, item, at, from, after);
}

proof fn lemma_split_point<W>(entries: Seq<(Seq<char>, W)>, key: Seq<char>) -> (at: int)
    requires
        ascending(entries),
    ensures
        0 <= at <= entries.len(),
        forall|j: int| 0 <= j < at ==> lex_lt((#[trigger] entries[j]).0, key),
        at < entries.len() ==> !lex_lt(entries[at].0, key),
    decreases entries.len(),
{
    if entries.len() == 0 {
        0
    } else if lex_lt(entries.last().0, key) {
        assert forall|j: int| 0 <= j < entries.len() implies lex_lt(
            (#[trigger] entries[j]).0,
            key,
        ) by {
            if j < entries.len() - 1 {
                lemma_lex_transitive(entries[j].0, entries.last().0, key);
            }
        }
        entries.len() as int
    } else {
        let at = lemma_split_point(entries.drop_last(), key);
        assert forall|j: int| 0 <= j < at implies lex_lt((#[trigger] entries[j]).0, key) by {
            assert(entries.drop_last()[j] == entries[j]);
        }
        at
    }
}

proof fn lemma_filter_prefix<A>(items: Seq<A>, p: spec_fn(A) -> bool, at: int)
    requires
        0 <= at <= items.len(),
        forall|j: int| 0 <= j < at ==> p(#[trigger] items[j]),
        forall|j: int| at <= j < items.len() ==> !p(#[trigger] items[j]),
    ensures
        items.filter(p) == items.take(at),
    decreases items.len(),
{
    reveal(Seq::filter);
    if items.len() > 0 {
        let rest = items.drop_last();
        if at == items.len() {
            lemma_filter_prefix(rest, p, at - 1);
            assert(rest.take(at - 1).push(items.last()) =~= items.take(at));
        } else {
            lemma_filter_prefix(rest, p, at);
            assert(rest.take(at) =~= items.take(at));
        }
    } else {
        assert(items.take(at) =~= items);
    }
}

proof fn lemma_filter_suffix<A>(items: Seq<A>, p: spec_fn(A) -> bool, from: int)
    requires
        0 <= from <= items.len(),
        forall|j: int| 0 <= j < from ==> !p(#[trigger] items[j]),
        forall|j: int| from <= j < items.len() ==> p(#[trigger] items[j]),
    ensures
        items.filter(p) == items.skip(from),
    decreases items.len(),
{
    reveal(Seq::filter);
    if items.len() > 0 {
        let rest = items.drop_last();
        if from == items.len() {
            lemma_filter_suffix(rest, p, from - 1);
            assert(rest.skip(from - 1) =~= items.skip(from));
        } else {
            lemma_filter_suffix(rest, p, from);
            assert(rest.skip(from).push(items.last()) =~= items.skip(from));
        }
    } else {
        assert(items.skip(from) =~= items);
    }
}

proof fn lemma_with_name_parts<W>(
    before: Seq<(Seq<char>, W)>,
    item: (Seq<char>, W),
    at: int,
    from: int,
)
    requires
        ascending(before),
        0 <= at <= from <= before.len(),
        forall|j: int| 0 <= j < at ==> lex_lt((#[trigger] before[j]).0, item.0),
        at < before.len() ==> !lex_lt(before[at].0, item.0),
        from == if at < before.len() && before[at].0 == item.0 {
            at + 1
        } else {
            at
        },
    ensures
        with_name(before, item.0, item.1) == before.take(at) + seq![item] + before.skip(from),
{
    let key = item.0;
    let below = |entry: (Seq<char>, W)| lex_lt(entry.0, key);
    let above = |entry: (Seq<char>, W)| lex_lt(key, entry.0);
    assert forall|j: int| from <= j < before.len() implies above(#[trigger] before[j]) by {
        lemma_lex_total(before[at].0, key);
        if at < j {
            assert(lex_lt(before[at].0, before[j].0));
            if before[at].0 != key {
                lemma_lex_transitive(key, before[at].0, before[j].0);
            }
        }
    }
    assert forall|j: int| at <= j < before.len() implies !below(#[trigger] before[j]) by {
        if j >= from {
            assert(above(before[j]));
            if below(before[j]) {
                lemma_lex_transitive(key, before[j].0, key);
                lemma_lex_irreflexive(key);
            }
        } else {
            lemma_lex_irreflexive(key);
        }
    }
    assert forall|j: int| 0 <= j < from implies !above(#[trigger] before[j]) by {
        if j < at {
            assert(below(before[j]));
            if above(before[j]) {
                lemma_lex_transitive(key, before[j].0, key);
                lemma_lex_irreflexive(key);
            }
        } else {
            lemma_lex_irreflexive(key);
        }
    }
    lemma_filter_prefix(before, below, at);
    lemma_filter_suffix(before, above, from);
}

/// A map from text to values, iterated in byte order of its keys.
#[derive(Debug, PartialEq, Eq)]
pub struct NameMap<T> {
    entries: Vec<(String, T)>,
}

impl<T: DeepView> DeepView for NameMap<T> {
    type V = Seq<(Seq<char>, T::V)>;

    closed spec fn deep_view(&self) -> Seq<(Seq<char>, T::V)> {
        self.entries.deep_view()
    }
}

impl<T> NameMap<T> {
    #[verifier::type_invariant]
    spec fn in_order(self) -> bool {
        forall|i: int, j: int|
            0 <= i < j < self.entries@.len() ==> lex_lt(
                (#[trigger] self.entries@[i]).0@,
                (#[trigger] self.entries@[j]).0@,
            )
    }

    /// The number of entries.
    pub fn len(&self) -> (n: usize)
        where T: DeepView
        ensures
            n == self.deep_view().len(),
            ascending(self.deep_view()),
    {
        proof {
            use_type_invariant(self);
        }
        self.entries.len()
    }

    pub fn is_empty(&self) -> (r: bool)
        where T: DeepView
        ensures
            r == (self.deep_view().len() == 0),
    {
        self.len() == 0
    }

    /// The key at position `i`.
    pub fn key_at(&self, i: usize) -> (key: &String)
        where T: DeepView
        requires
            i < self.deep_view().len(),
        ensures
            key@ == self.deep_view()[i as int].0,
    {
        &self.entries[i].0
    }

    /// The value at position `i`.
    pub fn value_at(&self, i: usize) -> (value: &T)
        where T: DeepView
        requires
            i < self.deep_view().len(),
        ensures
            value.deep_view() == self.deep_view()[i as int].1,
    {
        &self.entries[i].1
    }

    /// The value of `key`, if it has one.
    pub fn get(&self, key: &str) -> (value: Option<&T>)
        where T: DeepView
        ensures
            value.deep_view() == named(self.deep_view(), key@),
    {
        proof {
            use_type_invariant(self);
        }
        let n: usize = self.len();
        for i in 0..n
            invariant
                n == self.deep_view().len(),
                n == self.entries@.len(),
                ascending(self.deep_view()),
                forall|j: int| 0 <= j < i ==> (#[trigger] self.deep_view()[j]).0 != key@,
        {
            if same(self.entries[i].0.as_str(), key) {
                proof {
                    assert(self.deep_view()[i as int].0 == key@);
                    lemma_name_unique(self.deep_view(), i as int);
                }
                return Some(&self.entries[i].1);
            }
        }
        None
    }

    pub fn contains_key(&self, key: &str) -> (r: bool)
        where T: DeepView
        ensures
            r == has_name(self.deep_view(), key@),
    {
        self.get(key).is_some()
    }
}

impl<T: DeepClone> NameMap<T> {
    /// The empty map.
    pub fn new() -> (map: Self)
        ensures
            map.deep_view() == Seq::<(Seq<char>, T::V)>::empty(),
    {
        let map = NameMap { entries: Vec::new() };
        assert(map.deep_view() =~= Seq::<(Seq<char>, T::V)>::empty());
        map
    }

    /// Sets the value of `key`, replacing the one it had.
    pub fn insert(&mut self, key: String, value: T)
        ensures
            final(self).deep_view() == with_name(
                old(self).deep_view(),
                key@,
                value.deep_view(),
            ),
    {
        proof {
            use_type_invariant(&*self);
        }
        let ghost before = self.deep_view();
        let ghost item = (key@, value.deep_view());
        let n: usize = self.len();
        let mut at: usize = 0;
        while at < n && text_before(self.entries[at].0.as_str(), key.as_str())
            invariant
                n == self.entries@.len(),
                at <= n,
                before == self.deep_view(),
                forall|j: int| 0 <= j < at ==> lex_lt((#[trigger] before[j]).0, key@),
            decreases n - at,
        {
            at = at + 1;
        }
        let replaces: bool = at < n && same(self.entries[at].0.as_str(), key.as_str());
        let mut entries: Vec<(String, T)> = Vec::new();
        for i in 0..at
            invariant
                at <= n,
                n == self.entries@.len(),
                before == self.deep_view(),
                entries@.len() == i,
                forall|j: int| 0 <= j < i ==> (#[trigger] entries@[j]).deep_view() == before[j],
        {
            let entry: (String, T) = self.entries[i].deep_clone();
            entries.push(entry);
        }
        entries.push((key, value));
        let from: usize = if replaces {
            at + 1
        } else {
            at
        };
        for i in from..n
            invariant
                at <= from <= i <= n,
                n == self.entries@.len(),
                before == self.deep_view(),
                entries@.len() == at + 1 + (i - from),
                entries@[at as int].deep_view() == item,
                forall|j: int| 0 <= j < at ==> (#[trigger] entries@[j]).deep_view() == before[j],
                forall|j: int|
                    at < j < entries@.len() ==> (#[trigger] entries@[j]).deep_view() == before[from
                        + (j - at - 1)],
        {
            let entry: (String, T) = self.entries[i].deep_clone();
            entries.push(entry);
        }
        let ghost after = entries.deep_view();
        proof {
            lemma_inserted(before, item, at as int, from as int, after);
            lemma_with_name_parts(before, item, at as int, from as int);
            assert(after =~= with_name(before, item.0, item.1));
            assert forall|i: int, j: int| 0 <= i < j < entries@.len() implies lex_lt(
                (#[trigger] entries@[i]).0@,
                (#[trigger] entries@[j]).0@,
            ) by {
                assert(lex_lt(after[i].0, after[j].0));
            }
        }
        *self = NameMap { entries };
    }
}

impl<T: DeepClone> DeepClone for NameMap<T> {
    fn deep_clone(&self) -> (copy: Self) {
        proof {
            use_type_invariant(self);
        }
        let entries: Vec<(String, T)> = self.entries.deep_clone();
        proof {
            assert(entries@.len() == entries.deep_view().len());
            assert(self.entries@.len() == self.entries.deep_view().len());
            assert forall|i: int| 0 <= i < entries@.len() implies (#[trigger] entries@[i]).0@
                == self.entries@[i].0@ by {
                assert(entries.deep_view()[i] == self.entries.deep_view()[i]);
            }
        }
        NameMap { entries }
    }
}

impl<T: DeepClone> Clone for NameMap<T> {
    fn clone(&self) -> (copy: Self)
        ensures
            copy.deep_view() == self.deep_view(),
    {
        self.deep_clone()
    }
}

impl<T: DeepClone> Default for NameMap<T> {
    fn default() -> (map: Self)
        ensures
            map.deep_view() == Seq::<(Seq<char>, T::V)>::empty(),
    {
        NameMap::new()
    }
}

proof fn lemma_inserted<W>(
    before: Seq<(Seq<char>, W)>,
    item: (Seq<char>, W),
    at: int,
    from: int,
    after: Seq<(Seq<char>, W)>,
)
    requires
        ascending(before),
        0 <= at <= from <= before.len(),
        forall|j: int| 0 <= j < at ==> lex_lt((#[trigger] before[j]).0, item.0),
        at < before.len() ==> !lex_lt(before[at].0, item.0),
        from == if at < before.len() && before[at].0 == item.0 {
            at + 1
        } else {
            at
        },
        after.len() == at + 1 + (before.len() - from),
        after[at] == item,
        forall|j: int| 0 <= j < at ==> #[trigger] after[j] == before[j],
        forall|j: int| at < j < after.len() ==> #[trigger] after[j] == before[from + (j - at - 1)],
    ensures
        ascending(after),
        forall|name: Seq<char>|
            #![trigger named(after, name)]
            named(after, name) == if name == item.0 {
                Some(item.1)
            } else {
                named(before, name)
            },
{
    assert forall|j: int| from <= j < before.len() implies lex_lt(
        item.0,
        (#[trigger] before[j]).0,
    ) by {
        lemma_lex_total(before[at].0, item.0);
        if at < j {
            assert(lex_lt(before[at].0, before[j].0));
            if before[at].0 != item.0 {
                lemma_lex_transitive(item.0, before[at].0, before[j].0);
            }
        }
    }
    assert forall|i: int, j: int| 0 <= i < j < after.len() implies lex_lt(
        (#[trigger] after[i]).0,
        (#[trigger] after[j]).0,
    ) by {
        if i < at && j > at {
            lemma_lex_transitive(before[i].0, item.0, before[from + (j - at - 1)].0);
        }
    }
    assert forall|name: Seq<char>| #![trigger named(after, name)] named(after, name) == if name
        == item.0 {
        Some(item.1)
    } else {
        named(before, name)
    } by {
        if name == item.0 {
            lemma_name_unique(after, at);
        } else {
            if has_name(before, name) {
                let k = name_index(before, name);
                let place = if k < at {
                    k
                } else {
                    k - from + at + 1
                };
                assert(k < at || k >= from);
                assert(after[place] == before[k]);
                lemma_name_unique(after, place);
            } else if has_name(after, name) {
                let k = name_index(after, name);
                let place = if k < at {
                    k
                } else {
                    from + (k - at - 1)
                };
                assert(after[k] == before[place]);
            }
        }
    }
}

} // verus!
