//! What the comparison of two relations' columns promises, and that sorting
//! rearranges and nothing else.

use vstd::prelude::*;

use crate::adapter::ColumnInfoView;
use crate::contract_laws::{law_ambiguity_is_a_second_claim, lemma_joined};
use crate::contracts::{claims_of, without_repeats};
use crate::diff::{
    by_column, change_columns, column_changes, column_types, columns_compared, Comparison,
    SchemaChangeView,
};
use crate::names::{ascending, has_name, lemma_name_unique, lemma_with_name, named};
use crate::order::{
    lemma_listing_hits, lemma_text_listing, lemma_text_order, list_order, sorted_lists,
    sorted_texts, text_order, the_listing,
};
use crate::seqs::{first_where, gather, lemma_first_found, lemma_gather_member};
use crate::text::lex_lt;
use crate::workspace::{numeric_rank, parsed_type, widens, DataTypeView};

verus! {

/// Sorting texts keeps exactly those texts, and none stands behind a greater one.
pub proof fn law_sorting_texts_rearranges(items: Seq<Seq<char>>, text: Seq<char>)
    requires
        items.len() <= usize::MAX,
    ensures
        sorted_texts(items).len() == items.len(),
        sorted_texts(items).contains(text) <==> items.contains(text),
        forall|i: int, j: int|
            0 <= i < j < items.len() ==> !lex_lt(
                #[trigger] sorted_texts(items)[j],
                #[trigger] sorted_texts(items)[i],
            ),
{
    let n = items.len();
    let listing = the_listing(n, text_order(items));
    lemma_text_listing(items);
    let sorted = sorted_texts(items);
    if sorted.contains(text) {
        let k = choose|k: int| 0 <= k < sorted.len() && sorted[k] == text;
        assert(listing[k] < n);
        assert(items[listing[k] as int] == text);
    }
    if items.contains(text) {
        let i = choose|i: int| 0 <= i < items.len() && items[i] == text;
        lemma_listing_hits(listing, n, i as usize);
        let k = choose|k: int| 0 <= k < listing.len() && listing[k] == i as usize;
        assert(sorted[k] == text);
    }
    assert forall|i: int, j: int| 0 <= i < j < n implies !lex_lt(
        #[trigger] sorted[j],
        #[trigger] sorted[i],
    ) by {
        assert(listing[i] < n && listing[j] < n);
        lemma_text_order(items);
        let before = text_order(items);
        assert(crate::order::ahead(before, listing[i] as int, listing[j] as int));
        if before(listing[j] as int, listing[i] as int) {
            assert(before(listing[i] as int, listing[i] as int));
        }
    }
}

/// Sorting lists keeps exactly those lists.
pub proof fn law_sorting_lists_rearranges(items: Seq<Seq<Seq<char>>>, list: Seq<Seq<char>>)
    requires
        items.len() <= usize::MAX,
    ensures
        sorted_lists(items).len() == items.len(),
        sorted_lists(items).contains(list) <==> items.contains(list),
{
    let n = items.len();
    let listing = the_listing(n, list_order(items));
    crate::order::lemma_list_listing(items);
    let sorted = sorted_lists(items);
    if sorted.contains(list) {
        let k = choose|k: int| 0 <= k < sorted.len() && sorted[k] == list;
        assert(listing[k] < n);
        assert(items[listing[k] as int] == list);
    }
    if items.contains(list) {
        let i = choose|i: int| 0 <= i < items.len() && items[i] == list;
        lemma_listing_hits(listing, n, i as usize);
        let k = choose|k: int| 0 <= k < listing.len() && listing[k] == i as usize;
        assert(sorted[k] == list);
    }
}

/// Dropping repeats drops nothing but repeats.
pub proof fn law_dropping_repeats_keeps_members<A>(items: Seq<A>, x: A)
    ensures
        without_repeats(items).contains(x) <==> items.contains(x),
        items.len() > 0 ==> without_repeats(items).len() > 0 && without_repeats(items).last()
            == items.last(),
    decreases items.len(),
{
    if items.len() > 1 {
        let rest = items.drop_last();
        law_dropping_repeats_keeps_members(rest, x);
        let kept = without_repeats(rest);
        assert(items =~= rest.push(items.last()));
        lemma_joined(rest, seq![items.last()], x);
        assert(rest + seq![items.last()] =~= items);
        assert(seq![items.last()].contains(x) <==> x == items.last()) by {
            if x == items.last() {
                assert(seq![items.last()][0] == x);
            }
        }
        if items.last() == items[items.len() - 2] {
            assert(rest.last() == items.last());
            assert(rest[rest.len() - 1] == items.last());
            assert(rest.contains(items.last()));
        } else {
            lemma_joined(kept, seq![items.last()], x);
            assert(kept + seq![items.last()] =~= kept.push(items.last()));
        }
    }
}

/// Whether a comparison reports a change of a kind at a column, with a safety.
pub open spec fn shows(
    changes: Seq<SchemaChangeView>,
    column: Seq<char>,
    kind: Seq<char>,
    safety: Seq<char>,
) -> bool {
    exists|x: SchemaChangeView| #[trigger]
        changes.contains(x) && x.column == column && x.kind == kind && x.safety == safety
}

proof fn lemma_words()
    ensures
        "removed"@ != "renamed"@,
        "removed"@ != "added"@,
        "removed"@ != "changed"@,
        "removed"@ != "nullability"@,
        "removed"@ != "rename_ambiguous"@,
        "renamed"@ != "added"@,
        "renamed"@ != "changed"@,
        "renamed"@ != "nullability"@,
        "renamed"@ != "rename_ambiguous"@,
        "added"@ != "changed"@,
        "added"@ != "nullability"@,
        "added"@ != "rename_ambiguous"@,
        "changed"@ != "nullability"@,
        "changed"@ != "rename_ambiguous"@,
        "nullability"@ != "rename_ambiguous"@,
        "review"@ != "error"@,
{
    reveal_strlit("removed");
    reveal_strlit("renamed");
    reveal_strlit("added");
    reveal_strlit("changed");
    reveal_strlit("nullability");
    reveal_strlit("rename_ambiguous");
    reveal_strlit("review");
    reveal_strlit("error");
    assert("removed"@[2] == 'm');
    assert("renamed"@[2] == 'n');
    assert("changed"@[0] == 'c');
    assert("removed"@[0] == 'r');
    assert("renamed"@[0] == 'r');
    assert("removed"@.len() == 7);
    assert("renamed"@.len() == 7);
    assert("changed"@.len() == 7);
    assert("added"@.len() == 5);
    assert("nullability"@.len() == 11);
    assert("rename_ambiguous"@.len() == 16);
    assert("review"@.len() == 6);
    assert("error"@.len() == 5);
}

/// A column's type and nullability are those it is listed with last.
pub proof fn law_columns_speak_by_their_last_entry(columns: Seq<ColumnInfoView>, name: Seq<char>)
    ensures
        ascending(column_types(columns)),
        has_name(column_types(columns), name) <==> exists|i: int|
            0 <= i < columns.len() && (#[trigger] columns[i]).name == name,
        columns.len() > 0 && columns.last().name == name ==> named(column_types(columns), name)
            == Some((parsed_type(columns.last().data_type), columns.last().nullable)),
        columns.len() > 0 && columns.last().name != name ==> named(column_types(columns), name)
            == named(column_types(columns.drop_last()), name),
    decreases columns.len(),
{
    if columns.len() > 0 {
        let rest = columns.drop_last();
        law_columns_speak_by_their_last_entry(rest, name);
        let c = columns.last();
        let before = column_types(rest);
        let now = column_types(columns);
        lemma_with_name(before, c.name, (parsed_type(c.data_type), c.nullable));
        assert(named(now, name) == if name == c.name {
            Some((parsed_type(c.data_type), c.nullable))
        } else {
            named(before, name)
        });
        assert(has_name(now, name) <==> named(now, name) is Some);
        assert(has_name(before, name) <==> named(before, name) is Some);
        if exists|i: int| 0 <= i < rest.len() && (#[trigger] rest[i]).name == name {
            let i = choose|i: int| 0 <= i < rest.len() && (#[trigger] rest[i]).name == name;
            assert(columns[i].name == name);
        }
        if exists|i: int| 0 <= i < columns.len() && (#[trigger] columns[i]).name == name {
            let i = choose|i: int| 0 <= i < columns.len() && (#[trigger] columns[i]).name == name;
            if i < rest.len() {
                assert(rest[i].name == name);
            }
        }
        assert(columns[columns.len() - 1].name == c.name);
    }
}

/// Whether a declared rename explains a column that is gone: only the candidate
/// has the new name, the base has the old one, and no other rename claims it.
pub open spec fn accounts_for(c: Comparison, new: Seq<char>, old: Seq<char>) -> bool {
    &&& c.renames.contains((new, old))
    &&& forall|i: int, j: int|
        0 <= i < j < c.renames.len() ==> !((#[trigger] c.renames[i]).1 == old && (
        #[trigger] c.renames[j]).1 == old)
    &&& has_name(c.candidate, new)
    &&& !has_name(c.base, new)
    &&& has_name(c.base, old)
}

proof fn lemma_accounts(c: Comparison, new: Seq<char>, old: Seq<char>)
    ensures
        accounts_for(c, new, old) <==> c.renames.contains((new, old)) && c.resolves(new, old),
{
    law_ambiguity_is_a_second_claim(c.renames, old);
}

proof fn lemma_sources(c: Comparison, x: SchemaChangeView)
    ensures
        c.changes().contains(x) <==> gather(claims_of(c.renames), c.ambiguity()).contains(x)
            || gather(c.base, c.fate()).contains(x) || gather(c.candidate, c.addition()).contains(
            x,
        ),
{
    let a = gather(claims_of(c.renames), c.ambiguity());
    let b = gather(c.base, c.fate());
    let d = gather(c.candidate, c.addition());
    lemma_joined(a, b, x);
    lemma_joined(a + b, d, x);
}

proof fn lemma_ambiguity_kind(c: Comparison, x: SchemaChangeView)
    requires
        gather(claims_of(c.renames), c.ambiguity()).contains(x),
    ensures
        x.kind == "rename_ambiguous"@,
{
    lemma_gather_member(claims_of(c.renames), c.ambiguity(), x);
}

proof fn lemma_addition_kind(c: Comparison, x: SchemaChangeView)
    requires
        gather(c.candidate, c.addition()).contains(x),
    ensures
        x.kind == "added"@,
        x.safety == "safe"@,
        has_name(c.candidate, x.column),
        !has_name(c.base, x.column),
        !c.is_new_name(x.column),
{
    let f = c.addition();
    lemma_gather_member(c.candidate, f, x);
    let i = choose|i: int| 0 <= i < c.candidate.len() && f(#[trigger] c.candidate[i]).contains(x);
    assert(c.candidate[i].0 == x.column);
}

proof fn lemma_fate_kind(c: Comparison, x: SchemaChangeView) -> (i: int)
    requires
        gather(c.base, c.fate()).contains(x),
    ensures
        0 <= i < c.base.len(),
        c.fate()(c.base[i]).contains(x),
        x.kind != "added"@,
        x.kind != "rename_ambiguous"@,
        x.kind != "renamed"@ ==> x.column == c.base[i].0,
        x.kind == "removed"@ || x.kind == "renamed"@ <==> !has_name(c.candidate, c.base[i].0),
        x.kind == "removed"@ ==> x.safety == "full_rebuild_required"@,
        x.kind == "renamed"@ ==> x.safety == "full_rebuild_required"@,
{
    lemma_words();
    let f = c.fate();
    lemma_gather_member(c.base, f, x);
    let i = choose|i: int| 0 <= i < c.base.len() && f(#[trigger] c.base[i]).contains(x);
    let entry = c.base[i];
    if named(c.candidate, entry.0) is Some {
        let now = named(c.candidate, entry.0)->0;
        let got = f(entry);
        assert(got.len() <= 2);
        let k = choose|k: int| 0 <= k < got.len() && got[k] == x;
        assert(got[k].kind == "changed"@ || got[k].kind == "nullability"@);
    }
    i
}

/// A column is reported as removed, which takes a full rebuild, exactly where only
/// the base has it and no declared rename accounts for it.
pub proof fn law_removed_columns_are_shown(c: Comparison, name: Seq<char>)
    requires
        ascending(c.base),
    ensures
        shows(c.changes(), name, "removed"@, "full_rebuild_required"@) <==> has_name(c.base, name)
            && !has_name(c.candidate, name) && forall|new: Seq<char>|
            !#[trigger] accounts_for(c, new, name),
{
    lemma_words();
    let all = c.changes();
    lemma_first_found(c.renames, c.renames_old(name));
    if shows(all, name, "removed"@, "full_rebuild_required"@) {
        let x = choose|x: SchemaChangeView| #[trigger]
            all.contains(x) && x.column == name && x.kind == "removed"@ && x.safety
                == "full_rebuild_required"@;
        lemma_sources(c, x);
        if gather(claims_of(c.renames), c.ambiguity()).contains(x) {
            lemma_ambiguity_kind(c, x);
        }
        if gather(c.candidate, c.addition()).contains(x) {
            lemma_addition_kind(c, x);
        }
        let i = lemma_fate_kind(c, x);
        assert(c.base[i].0 == name);
        assert(first_where(c.renames, c.renames_old(name)) is None);
        assert forall|new: Seq<char>| !#[trigger] accounts_for(c, new, name) by {
            if accounts_for(c, new, name) {
                lemma_accounts(c, new, name);
                let j = choose|j: int| 0 <= j < c.renames.len() && c.renames[j] == (new, name);
                assert(c.renames_old(name)(c.renames[j]));
            }
        }
    }
    if has_name(c.base, name) && !has_name(c.candidate, name) && forall|new: Seq<char>|
        !#[trigger] accounts_for(c, new, name) {
        let i = choose|i: int| 0 <= i < c.base.len() && (#[trigger] c.base[i]).0 == name;
        assert(first_where(c.renames, c.renames_old(name)) is None) by {
            if first_where(c.renames, c.renames_old(name)) is Some {
                let r = first_where(c.renames, c.renames_old(name))->0;
                assert(r == (r.0, name));
                assert(c.renames.contains((r.0, name)));
                lemma_accounts(c, r.0, name);
            }
        }
        let f = c.fate();
        let x = f(c.base[i])[0];
        assert(f(c.base[i]).contains(x));
        lemma_gather_member(c.base, f, x);
        lemma_sources(c, x);
    }
}

/// A rename that accounts for a column that is gone is reported at the new name,
/// and takes a full rebuild; and no other rename is.
pub proof fn law_renamed_columns_are_shown(c: Comparison, new: Seq<char>)
    requires
        ascending(c.base),
    ensures
        shows(c.changes(), new, "renamed"@, "full_rebuild_required"@) <==> exists|old: Seq<char>|
            #[trigger] accounts_for(c, new, old) && !has_name(c.candidate, old),
{
    lemma_words();
    let all = c.changes();
    if shows(all, new, "renamed"@, "full_rebuild_required"@) {
        let x = choose|x: SchemaChangeView| #[trigger]
            all.contains(x) && x.column == new && x.kind == "renamed"@ && x.safety
                == "full_rebuild_required"@;
        lemma_sources(c, x);
        if gather(claims_of(c.renames), c.ambiguity()).contains(x) {
            lemma_ambiguity_kind(c, x);
        }
        if gather(c.candidate, c.addition()).contains(x) {
            lemma_addition_kind(c, x);
        }
        let i = lemma_fate_kind(c, x);
        let old = c.base[i].0;
        lemma_first_found(c.renames, c.renames_old(old));
        let r = first_where(c.renames, c.renames_old(old))->0;
        assert(first_where(c.renames, c.renames_old(old)) is Some);
        assert(r == (new, old));
        lemma_accounts(c, new, old);
    }
    if exists|old: Seq<char>| #[trigger] accounts_for(c, new, old) && !has_name(c.candidate, old) {
        let old = choose|old: Seq<char>| #[trigger]
            accounts_for(c, new, old) && !has_name(c.candidate, old);
        lemma_accounts(c, new, old);
        lemma_first_found(c.renames, c.renames_old(old));
        let j = choose|j: int| 0 <= j < c.renames.len() && c.renames[j] == (new, old);
        assert(c.renames_old(old)(c.renames[j]));
        let r = first_where(c.renames, c.renames_old(old))->0;
        let m = choose|m: int| 0 <= m < c.renames.len() && c.renames[m] == r;
        assert(c.renames[m].1 == old && c.renames[j].1 == old);
        assert(m == j);
        let i = choose|i: int| 0 <= i < c.base.len() && (#[trigger] c.base[i]).0 == old;
        let f = c.fate();
        let x = f(c.base[i])[0];
        assert(x.column == new);
        assert(f(c.base[i]).contains(x));
        lemma_gather_member(c.base, f, x);
        lemma_sources(c, x);
    }
}

/// A column is reported as added, which is safe, exactly where only the candidate
/// has it and it is not the new name of a rename that accounts for another.
pub proof fn law_added_columns_are_shown(c: Comparison, name: Seq<char>)
    requires
        ascending(c.renames),
    ensures
        shows(c.changes(), name, "added"@, "safe"@) <==> has_name(c.candidate, name) && !has_name(
            c.base,
            name,
        ) && forall|old: Seq<char>| !#[trigger] accounts_for(c, name, old),
{
    lemma_words();
    let all = c.changes();
    assert(c.is_new_name(name) <==> exists|old: Seq<char>| #[trigger] accounts_for(c, name, old))
        by {
        if c.is_new_name(name) {
            let old = named(c.renames, name)->0;
            let i = crate::names::name_index(c.renames, name);
            assert(has_name(c.renames, name));
            assert(c.renames[i] == (name, old));
            assert(c.renames.contains((name, old)));
            lemma_accounts(c, name, old);
            assert(accounts_for(c, name, old));
        }
        if exists|old: Seq<char>| #[trigger] accounts_for(c, name, old) {
            let old = choose|old: Seq<char>| #[trigger] accounts_for(c, name, old);
            lemma_accounts(c, name, old);
            let i = choose|i: int| 0 <= i < c.renames.len() && c.renames[i] == (name, old);
            lemma_name_unique(c.renames, i);
        }
    }
    if shows(all, name, "added"@, "safe"@) {
        let x = choose|x: SchemaChangeView| #[trigger]
            all.contains(x) && x.column == name && x.kind == "added"@ && x.safety == "safe"@;
        lemma_sources(c, x);
        if gather(claims_of(c.renames), c.ambiguity()).contains(x) {
            lemma_ambiguity_kind(c, x);
        }
        if gather(c.base, c.fate()).contains(x) {
            let i = lemma_fate_kind(c, x);
        }
        lemma_addition_kind(c, x);
    }
    if has_name(c.candidate, name) && !has_name(c.base, name) && !c.is_new_name(name) {
        let i = choose|i: int| 0 <= i < c.candidate.len() && (#[trigger] c.candidate[i]).0 == name;
        let f = c.addition();
        let x = f(c.candidate[i])[0];
        assert(f(c.candidate[i]).contains(x));
        lemma_gather_member(c.candidate, f, x);
        lemma_sources(c, x);
    }
}

/// A column on both sides is reported as changed exactly where its type differs:
/// for review between numbers, else as an error. Its nullability is reported
/// exactly where it differs: losing a not-null is an error, gaining one is for
/// review.
pub proof fn law_changed_columns_are_shown(c: Comparison, name: Seq<char>)
    requires
        ascending(c.base),
        has_name(c.base, name),
        has_name(c.candidate, name),
    ensures
        ({
            let was = named(c.base, name)->0;
            let now = named(c.candidate, name)->0;
            let numbers = numeric_rank(was.0) >= 0 && numeric_rank(now.0) >= 0;
            &&& shows(c.changes(), name, "changed"@, "review"@) <==> was.0 != now.0 && numbers
            &&& shows(c.changes(), name, "changed"@, "error"@) <==> was.0 != now.0 && !numbers
            &&& shows(c.changes(), name, "nullability"@, "error"@) <==> !was.1 && now.1
            &&& shows(c.changes(), name, "nullability"@, "review"@) <==> was.1 && !now.1
        }),
{
    lemma_words();
    let was = named(c.base, name)->0;
    let now = named(c.candidate, name)->0;
    let i = choose|i: int| 0 <= i < c.base.len() && (#[trigger] c.base[i]).0 == name;
    lemma_name_unique(c.base, i);
    let f = c.fate();
    let found = f(c.base[i]);
    lemma_fate_shown(c, i, "changed"@, "review"@);
    lemma_fate_shown(c, i, "changed"@, "error"@);
    lemma_fate_shown(c, i, "nullability"@, "error"@);
    lemma_fate_shown(c, i, "nullability"@, "review"@);
    if was.0 != now.0 {
        assert(found[0].kind == "changed"@);
        assert(found.contains(found[0]));
    }
    if was.1 != now.1 {
        assert(found.last().kind == "nullability"@);
        assert(found[found.len() - 1] == found.last());
        assert(found.contains(found.last()));
    }
    assert(found.len() <= 2);
    assert(forall|x: SchemaChangeView| #[trigger]
        found.contains(x) ==> x == found[0] || x == found.last());
}

proof fn lemma_fate_shown(c: Comparison, i: int, kind: Seq<char>, safety: Seq<char>)
    requires
        ascending(c.base),
        0 <= i < c.base.len(),
        has_name(c.candidate, c.base[i].0),
        kind == "changed"@ || kind == "nullability"@,
    ensures
        shows(c.changes(), c.base[i].0, kind, safety) <==> exists|x: SchemaChangeView| #[trigger]
            c.fate()(c.base[i]).contains(x) && x.column == c.base[i].0 && x.kind == kind && x.safety
                == safety,
{
    lemma_words();
    let name = c.base[i].0;
    let f = c.fate();
    let all = c.changes();
    if shows(all, name, kind, safety) {
        let x = choose|x: SchemaChangeView| #[trigger]
            all.contains(x) && x.column == name && x.kind == kind && x.safety == safety;
        lemma_sources(c, x);
        if gather(claims_of(c.renames), c.ambiguity()).contains(x) {
            lemma_ambiguity_kind(c, x);
        }
        if gather(c.candidate, c.addition()).contains(x) {
            lemma_addition_kind(c, x);
        }
        let j = lemma_fate_kind(c, x);
        lemma_name_unique(c.base, i);
        lemma_name_unique(c.base, j);
        assert(i == j);
        assert(f(c.base[i]).contains(x));
    }
    if exists|x: SchemaChangeView| #[trigger]
        f(c.base[i]).contains(x) && x.column == name && x.kind == kind && x.safety == safety {
        let x = choose|x: SchemaChangeView| #[trigger]
            f(c.base[i]).contains(x) && x.column == name && x.kind == kind && x.safety == safety;
        lemma_gather_member(c.base, f, x);
        lemma_sources(c, x);
    }
}

/// A comparison of column lists reports the changes between what each side's
/// columns are, sorted by column.
pub proof fn law_comparisons_hold_every_change(
    candidate: Seq<ColumnInfoView>,
    base: Seq<ColumnInfoView>,
    renames: Seq<(Seq<char>, Seq<char>)>,
    x: SchemaChangeView,
)
    requires
        (Comparison { candidate: column_types(candidate), base: column_types(base), renames }).changes().len()
            <= usize::MAX,
    ensures
        column_changes(candidate, base, renames).contains(x) <==> (Comparison {
            candidate: column_types(candidate),
            base: column_types(base),
            renames,
        }).changes().contains(x),
        ascending(column_types(candidate)),
        ascending(column_types(base)),
        forall|i: int, j: int|
            0 <= i < j < column_changes(candidate, base, renames).len() ==> !lex_lt(
                (#[trigger] column_changes(candidate, base, renames)[j]).column,
                (#[trigger] column_changes(candidate, base, renames)[i]).column,
            ),
{
    law_columns_speak_by_their_last_entry(candidate, x.column);
    law_columns_speak_by_their_last_entry(base, x.column);
    let changes = (Comparison {
        candidate: column_types(candidate),
        base: column_types(base),
        renames,
    }).changes();
    let keys = change_columns(changes);
    let n = changes.len();
    let listing = the_listing(n, text_order(keys));
    lemma_text_listing(keys);
    let sorted = by_column(changes);
    if sorted.contains(x) {
        let k = choose|k: int| 0 <= k < sorted.len() && sorted[k] == x;
        assert(listing[k] < n);
        assert(changes[listing[k] as int] == x);
    }
    if changes.contains(x) {
        let i = choose|i: int| 0 <= i < changes.len() && changes[i] == x;
        lemma_listing_hits(listing, n, i as usize);
        let k = choose|k: int| 0 <= k < listing.len() && listing[k] == i as usize;
        assert(sorted[k] == x);
    }
    assert forall|i: int, j: int| 0 <= i < j < n implies !lex_lt(
        (#[trigger] sorted[j]).column,
        (#[trigger] sorted[i]).column,
    ) by {
        assert(listing[i] < n && listing[j] < n);
        lemma_text_order(keys);
        let before = text_order(keys);
        assert(crate::order::ahead(before, listing[i] as int, listing[j] as int));
        if before(listing[j] as int, listing[i] as int) {
            assert(before(listing[i] as int, listing[i] as int));
        }
    }
}

/// Nothing is compared where a side's columns are not known.
pub proof fn law_unknown_columns_are_not_compared(
    candidate: Option<Seq<ColumnInfoView>>,
    base: Option<Seq<ColumnInfoView>>,
    renames: Seq<(Seq<char>, Seq<char>)>,
)
    ensures
        candidate is None || base is None ==> columns_compared(candidate, base, renames).len()
            == 0,
        candidate is Some && base is Some && (candidate->0.len() > 0 || base->0.len() > 0)
            ==> columns_compared(candidate, base, renames) == column_changes(
            candidate->0,
            base->0,
            renames,
        ),
{
}

/// Widening orders the numeric types and relates no others: every number widens to
/// itself and to a double, a tiny integer to every number, and of two different
/// types at most one widens to the other.
pub proof fn law_widening_orders_numbers(a: DataTypeView, b: DataTypeView, c: DataTypeView)
    ensures
        widens(a, b) ==> widens(a, a) && widens(b, b),
        widens(a, b) && widens(b, c) ==> widens(a, c),
        widens(a, b) && widens(b, a) ==> a == b,
        widens(a, a) <==> a is TinyInt || a is SmallInt || a is Integer || a is BigInt || a
            is Decimal || a is Real || a is Double,
        widens(a, a) ==> widens(a, DataTypeView::Double) && widens(DataTypeView::TinyInt, a),
        widens(a, a) && widens(b, b) ==> widens(a, b) || widens(b, a),
        widens(DataTypeView::SmallInt, DataTypeView::Integer),
        widens(DataTypeView::Integer, DataTypeView::BigInt),
        widens(DataTypeView::BigInt, DataTypeView::Decimal),
        widens(DataTypeView::Decimal, DataTypeView::Real),
{
}

} // verus!
