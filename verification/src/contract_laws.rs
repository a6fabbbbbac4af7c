//! What the comparison of contracts promises: which changes are reported, and
//! which of them break consumers.

use vstd::prelude::*;

use crate::contracts::{
    ambiguity_change, claimants, claims_of, column_change, column_named, contract_changes,
    enforcement_change, if_breaking, is_ambiguous, key_claims, key_difference,
    lemma_claims_ascending, nullability_change, previous_of, removal_change, rename_change,
    rename_resolves, type_change, unique_claim, ContractChangeView, ContractSafety, RecordedKeyView,
};
use crate::names::{ascending, lemma_name_unique, lemma_with_name, named};
use crate::seqs::{gather, lemma_gather_member};
use crate::workspace::{
    widens, AssertionView, ColumnContractView, CompiledModelView, IncrementalStrategyView,
    ModelContractView,
};

verus! {

/// Whether a diff reports a change of a kind at a column, with a safety.
pub open spec fn reports(
    changes: Seq<ContractChangeView>,
    column: Seq<char>,
    kind: Seq<char>,
    safety: ContractSafety,
) -> bool {
    exists|x: ContractChangeView| #[trigger]
        changes.contains(x) && x.column == column && x.kind == kind && x.safety == safety
}

proof fn lemma_kinds()
    ensures
        "removed"@ != "renamed"@,
        "removed"@ != "added"@,
        "removed"@ != "type_changed"@,
        "removed"@ != "nullability_changed"@,
        "removed"@ != "rename_ambiguous"@,
        "removed"@ != "enforcement_changed"@,
        "renamed"@ != "added"@,
        "renamed"@ != "type_changed"@,
        "renamed"@ != "nullability_changed"@,
        "renamed"@ != "rename_ambiguous"@,
        "renamed"@ != "enforcement_changed"@,
        "added"@ != "type_changed"@,
        "added"@ != "nullability_changed"@,
        "added"@ != "rename_ambiguous"@,
        "added"@ != "enforcement_changed"@,
        "type_changed"@ != "nullability_changed"@,
        "type_changed"@ != "rename_ambiguous"@,
        "type_changed"@ != "enforcement_changed"@,
        "nullability_changed"@ != "rename_ambiguous"@,
        "nullability_changed"@ != "enforcement_changed"@,
        "rename_ambiguous"@ != "enforcement_changed"@,
{
    reveal_strlit("removed");
    reveal_strlit("renamed");
    reveal_strlit("added");
    reveal_strlit("type_changed");
    reveal_strlit("nullability_changed");
    reveal_strlit("rename_ambiguous");
    reveal_strlit("enforcement_changed");
    assert("removed"@[2] == 'm');
    assert("renamed"@[2] == 'n');
    assert("nullability_changed"@[0] == 'n');
    assert("enforcement_changed"@[0] == 'e');
    assert("removed"@.len() == 7);
    assert("added"@.len() == 5);
    assert("type_changed"@.len() == 12);
    assert("nullability_changed"@.len() == 19);
    assert("rename_ambiguous"@.len() == 16);
}

/// The names that claim an old name are those of the renames that speak of it;
/// the old name is ambiguous exactly where two of them do.
pub proof fn law_ambiguity_is_a_second_claim(renames: Seq<(Seq<char>, Seq<char>)>, old: Seq<char>)
    ensures
        is_ambiguous(renames, old) <==> exists|i: int, j: int|
            0 <= i < j < renames.len() && (#[trigger] renames[i]).1 == old && (
            #[trigger] renames[j]).1 == old,
{
    lemma_claimants(renames, old);
    let f = claims_old(old);
    let all = gather(renames, f);
    if all.len() > 1 {
        let (i, j) = lemma_two_sources(renames, f);
        assert(renames[i].1 == old && renames[j].1 == old);
    }
    if exists|i: int, j: int|
        0 <= i < j < renames.len() && (#[trigger] renames[i]).1 == old && (
        #[trigger] renames[j]).1 == old {
        let (i, j) = choose|i: int, j: int|
            0 <= i < j < renames.len() && (#[trigger] renames[i]).1 == old && (
            #[trigger] renames[j]).1 == old;
        lemma_two_kept(renames, f, i, j);
    }
}

spec fn claims_old(old: Seq<char>) -> spec_fn((Seq<char>, Seq<char>)) -> Seq<Seq<char>> {
    |rename: (Seq<char>, Seq<char>)|
        if rename.1 == old {
            seq![rename.0]
        } else {
            Seq::empty()
        }
}

proof fn lemma_claimants(renames: Seq<(Seq<char>, Seq<char>)>, old: Seq<char>)
    ensures
        claimants(claims_of(renames), old) == gather(renames, claims_old(old)),
    decreases renames.len(),
{
    if renames.len() > 0 {
        let rest = renames.drop_last();
        lemma_claimants(rest, old);
        lemma_claims_ascending(rest);
        let before = claims_of(rest);
        let (new, name) = renames.last();
        lemma_with_name(before, name, claimants(before, name).push(new));
        lemma_claimants(rest, name);
        if name == old {
            assert(gather(rest, claims_old(old)) + seq![new] =~= gather(
                rest,
                claims_old(old),
            ).push(new));
        } else {
            assert(gather(rest, claims_old(old)) + Seq::<Seq<char>>::empty() =~= gather(
                rest,
                claims_old(old),
            ));
        }
    } else {
        assert(named(claims_of(renames), old) is None);
    }
}

proof fn lemma_two_sources(
    items: Seq<(Seq<char>, Seq<char>)>,
    f: spec_fn((Seq<char>, Seq<char>)) -> Seq<Seq<char>>,
) -> (at: (int, int))
    requires
        gather(items, f).len() > 1,
        forall|x: (Seq<char>, Seq<char>)| #[trigger] f(x).len() <= 1,
    ensures
        0 <= at.0 < at.1 < items.len(),
        f(items[at.0]).len() == 1,
        f(items[at.1]).len() == 1,
    decreases items.len(),
{
    let rest = items.drop_last();
    let whole = gather(items, f);
    assert(whole == gather(rest, f) + f(items.last()));
    if gather(rest, f).len() > 1 {
        let at = lemma_two_sources(rest, f);
        assert(rest[at.0] == items[at.0] && rest[at.1] == items[at.1]);
        at
    } else {
        assert(f(items.last()).len() == 1);
        let one = gather(rest, f)[0];
        assert(gather(rest, f).contains(one));
        lemma_gather_member(rest, f, one);
        let i = choose|i: int| 0 <= i < rest.len() && f(#[trigger] rest[i]).contains(one);
        assert(f(rest[i]).len() > 0);
        assert(items[i] == rest[i]);
        (i, items.len() - 1)
    }
}

proof fn lemma_two_kept(
    items: Seq<(Seq<char>, Seq<char>)>,
    f: spec_fn((Seq<char>, Seq<char>)) -> Seq<Seq<char>>,
    i: int,
    j: int,
)
    requires
        0 <= i < j < items.len(),
        f(items[i]).len() == 1,
        f(items[j]).len() == 1,
    ensures
        gather(items, f).len() > 1,
    decreases items.len(),
{
    let rest = items.drop_last();
    assert(gather(items, f) == gather(rest, f) + f(items.last()));
    if j < rest.len() {
        assert(rest[i] == items[i] && rest[j] == items[j]);
        lemma_two_kept(rest, f, i, j);
    } else {
        assert(rest[i] == items[i]);
        let one = f(items[i])[0];
        assert(f(rest[i]).contains(one));
        lemma_gather_member(rest, f, one);
    }
}

/// A column's contract is the last one listed under its name, wherever there is
/// one.
pub proof fn law_columns_are_found_by_name(columns: Seq<ColumnContractView>, name: Seq<char>)
    ensures
        column_named(columns, name) matches Some(column) ==> column.name == name
            && columns.contains(column),
        column_named(columns, name) is Some <==> exists|i: int|
            0 <= i < columns.len() && (#[trigger] columns[i]).name == name,
    decreases columns.len(),
{
    if columns.len() > 0 {
        let rest = columns.drop_last();
        law_columns_are_found_by_name(rest, name);
        assert(columns[columns.len() - 1] == columns.last());
        if columns.last().name != name {
            if column_named(rest, name) is Some {
                let found = column_named(rest, name)->0;
                let k = choose|k: int| 0 <= k < rest.len() && rest[k] == found;
                assert(columns[k] == found);
                assert(columns[k].name == name);
            }
            if exists|i: int| 0 <= i < columns.len() && (#[trigger] columns[i]).name == name {
                let i = choose|i: int|
                    0 <= i < columns.len() && (#[trigger] columns[i]).name == name;
                assert(rest[i].name == name);
            }
        }
    }
}

/// Whether a declared rename explains what became of a column: the old name was
/// there, the new one was not and is now, and no other rename claims the old.
pub open spec fn explained(
    was: ModelContractView,
    now: ModelContractView,
    new: Seq<char>,
    old: Seq<char>,
) -> bool {
    &&& now.renames.contains((new, old))
    &&& forall|i: int, j: int|
        0 <= i < j < now.renames.len() ==> !((#[trigger] now.renames[i]).1 == old && (
        #[trigger] now.renames[j]).1 == old)
    &&& column_named(now.columns, new) is Some
    &&& column_named(was.columns, new) is None
    &&& column_named(was.columns, old) is Some
}

proof fn lemma_explained(
    was: ModelContractView,
    now: ModelContractView,
    new: Seq<char>,
    old: Seq<char>,
)
    ensures
        explained(was, now, new, old) <==> now.renames.contains((new, old)) && rename_resolves(
            was,
            now,
            new,
            old,
        ),
{
    law_ambiguity_is_a_second_claim(now.renames, old);
}

spec fn part(was: ModelContractView, now: ModelContractView, k: int) -> Seq<ContractChangeView> {
    if k == 0 {
        enforcement_change(was, now)
    } else if k == 1 {
        gather(claims_of(now.renames), ambiguity_change(was))
    } else if k == 2 {
        gather(now.renames, rename_change(was, now))
    } else if k == 3 {
        gather(was.columns, removal_change(was, now))
    } else {
        gather(now.columns, column_change(was, now))
    }
}

proof fn lemma_parts(was: ModelContractView, now: ModelContractView, x: ContractChangeView)
    ensures
        contract_changes(Some(was), Some(now)).contains(x) <==> exists|k: int|
            0 <= k < 5 && (#[trigger] part(was, now, k)).contains(x),
{
    let p0 = part(was, now, 0);
    let p1 = part(was, now, 1);
    let p2 = part(was, now, 2);
    let p3 = part(was, now, 3);
    let p4 = part(was, now, 4);
    lemma_joined(p0, p1, x);
    lemma_joined(p0 + p1, p2, x);
    lemma_joined(p0 + p1 + p2, p3, x);
    lemma_joined(p0 + p1 + p2 + p3, p4, x);
}

pub proof fn lemma_joined<A>(a: Seq<A>, b: Seq<A>, x: A)
    ensures
        (a + b).contains(x) <==> a.contains(x) || b.contains(x),
{
    if a.contains(x) {
        let i = choose|i: int| 0 <= i < a.len() && a[i] == x;
        assert((a + b)[i] == x);
    }
    if b.contains(x) {
        let i = choose|i: int| 0 <= i < b.len() && b[i] == x;
        assert((a + b)[a.len() + i] == x);
    }
    if (a + b).contains(x) {
        let i = choose|i: int| 0 <= i < (a + b).len() && (a + b)[i] == x;
        if i < a.len() {
            assert(a[i] == x);
        } else {
            assert(b[i - a.len()] == x);
        }
    }
}

/// What the kind of a change in a part can be.
proof fn lemma_part_kinds(was: ModelContractView, now: ModelContractView, k: int, x: ContractChangeView)
    requires
        0 <= k < 5,
        part(was, now, k).contains(x),
    ensures
        k == 0 ==> x.kind == "enforcement_changed"@,
        k == 1 ==> x.kind == "rename_ambiguous"@,
        k == 2 ==> x.kind == "renamed"@ && x.safety == ContractSafety::Breaking && exists|old:
            Seq<char>| #[trigger]
            now.renames.contains((x.column, old)) && rename_resolves(was, now, x.column, old)
                && named(was.renames, x.column) != Some(old),
        k == 3 ==> x.kind == "removed"@ && x.safety == ContractSafety::Breaking && column_named(
            was.columns,
            x.column,
        ) is Some && column_named(now.columns, x.column) is None && forall|new: Seq<char>|
            !(#[trigger] now.renames.contains((new, x.column)) && rename_resolves(
                was,
                now,
                new,
                x.column,
            )),
        k == 4 ==> exists|c: ColumnContractView| #[trigger]
            now.columns.contains(c) && column_change(was, now)(c).contains(x),
{
    if k == 1 {
        let f = ambiguity_change(was);
        lemma_gather_member(claims_of(now.renames), f, x);
    } else if k == 2 {
        let f = rename_change(was, now);
        lemma_gather_member(now.renames, f, x);
        let i = choose|i: int|
            0 <= i < now.renames.len() && f(#[trigger] now.renames[i]).contains(x);
        assert(now.renames[i] == (now.renames[i].0, now.renames[i].1));
        assert(now.renames.contains((x.column, now.renames[i].1)));
    } else if k == 3 {
        let f = removal_change(was, now);
        lemma_gather_member(was.columns, f, x);
        let i = choose|i: int|
            0 <= i < was.columns.len() && f(#[trigger] was.columns[i]).contains(x);
        assert(was.columns[i].name == x.column);
        law_columns_are_found_by_name(was.columns, x.column);
        assert forall|new: Seq<char>|
            !(#[trigger] now.renames.contains((new, x.column)) && rename_resolves(
                was,
                now,
                new,
                x.column,
            )) by {
            if now.renames.contains((new, x.column)) && rename_resolves(was, now, new, x.column) {
                let j = choose|j: int|
                    0 <= j < now.renames.len() && now.renames[j] == (new, x.column);
                assert(now.renames[j].1 == x.column);
            }
        }
    } else if k == 4 {
        let f = column_change(was, now);
        lemma_gather_member(now.columns, f, x);
        let i = choose|i: int|
            0 <= i < now.columns.len() && f(#[trigger] now.columns[i]).contains(x);
        assert(now.columns.contains(now.columns[i]));
    } else {
        assert(enforcement_change(was, now).contains(x));
    }
}

proof fn lemma_column_change_kinds(
    was: ModelContractView,
    now: ModelContractView,
    c: ColumnContractView,
    x: ContractChangeView,
)
    requires
        column_change(was, now)(c).contains(x),
    ensures
        x.column == c.name,
        x.kind == "added"@ || x.kind == "type_changed"@ || x.kind == "nullability_changed"@,
        x.kind == "added"@ ==> x.safety == ContractSafety::Safe && previous_of(was, now, c.name)
            is None,
        x.kind == "type_changed"@ ==> previous_of(was, now, c.name) is Some && type_change(
            c.name,
            previous_of(was, now, c.name)->0,
            c,
        ).contains(x),
        x.kind == "nullability_changed"@ ==> previous_of(was, now, c.name) is Some
            && nullability_change(c.name, previous_of(was, now, c.name)->0, c).contains(x),
{
    lemma_kinds();
    if previous_of(was, now, c.name) is Some {
        let before = previous_of(was, now, c.name)->0;
        lemma_joined(type_change(c.name, before, c), nullability_change(c.name, before, c), x);
    }
}

/// A column counts as removed, which breaks consumers, exactly where the previous
/// contract has it, the desired one has not, and no declared rename explains it.
pub proof fn law_removals_break(
    was: ModelContractView,
    now: ModelContractView,
    name: Seq<char>,
)
    ensures
        reports(
            contract_changes(Some(was), Some(now)),
            name,
            "removed"@,
            ContractSafety::Breaking,
        ) <==> column_named(was.columns, name) is Some && column_named(now.columns, name) is None
            && forall|new: Seq<char>| !#[trigger] explained(was, now, new, name),
{
    let all = contract_changes(Some(was), Some(now));
    lemma_kinds();
    if reports(all, name, "removed"@, ContractSafety::Breaking) {
        let x = choose|x: ContractChangeView| #[trigger]
            all.contains(x) && x.column == name && x.kind == "removed"@ && x.safety
                == ContractSafety::Breaking;
        lemma_parts(was, now, x);
        let k = choose|k: int| 0 <= k < 5 && (#[trigger] part(was, now, k)).contains(x);
        lemma_part_kinds(was, now, k, x);
        if k == 4 {
            let c = choose|c: ColumnContractView| #[trigger]
                now.columns.contains(c) && column_change(was, now)(c).contains(x);
            lemma_column_change_kinds(was, now, c, x);
        }
        assert(k == 3);
        assert forall|new: Seq<char>| !#[trigger] explained(was, now, new, name) by {
            lemma_explained(was, now, new, name);
        }
    }
    if column_named(was.columns, name) is Some && column_named(now.columns, name) is None
        && forall|new: Seq<char>| !#[trigger] explained(was, now, new, name) {
        law_columns_are_found_by_name(was.columns, name);
        let c = column_named(was.columns, name)->0;
        let i = choose|i: int| 0 <= i < was.columns.len() && was.columns[i] == c;
        assert(!crate::contracts::renamed_away(was, now, name)) by {
            if crate::contracts::renamed_away(was, now, name) {
                let j = choose|j: int|
                    0 <= j < now.renames.len() && (#[trigger] now.renames[j]).1 == name
                        && rename_resolves(was, now, now.renames[j].0, name);
                assert(now.renames[j] == (now.renames[j].0, name));
                assert(now.renames.contains((now.renames[j].0, name)));
                lemma_explained(was, now, now.renames[j].0, name);
            }
        }
        let f = removal_change(was, now);
        let x = f(was.columns[i])[0];
        assert(f(was.columns[i]).contains(x));
        lemma_gather_member(was.columns, f, x);
        assert(part(was, now, 3).contains(x));
        lemma_parts(was, now, x);
    }
}

/// A rename is reported, and breaks consumers, exactly where it explains a column
/// and the previous contract had not declared it.
pub proof fn law_renames_break(was: ModelContractView, now: ModelContractView, new: Seq<char>)
    ensures
        reports(
            contract_changes(Some(was), Some(now)),
            new,
            "renamed"@,
            ContractSafety::Breaking,
        ) <==> exists|old: Seq<char>| #[trigger]
            explained(was, now, new, old) && named(was.renames, new) != Some(old),
{
    let all = contract_changes(Some(was), Some(now));
    lemma_kinds();
    if reports(all, new, "renamed"@, ContractSafety::Breaking) {
        let x = choose|x: ContractChangeView| #[trigger]
            all.contains(x) && x.column == new && x.kind == "renamed"@ && x.safety
                == ContractSafety::Breaking;
        lemma_parts(was, now, x);
        let k = choose|k: int| 0 <= k < 5 && (#[trigger] part(was, now, k)).contains(x);
        lemma_part_kinds(was, now, k, x);
        if k == 4 {
            let c = choose|c: ColumnContractView| #[trigger]
                now.columns.contains(c) && column_change(was, now)(c).contains(x);
            lemma_column_change_kinds(was, now, c, x);
        }
        assert(k == 2);
        let old = choose|old: Seq<char>| #[trigger]
            now.renames.contains((x.column, old)) && rename_resolves(was, now, x.column, old)
                && named(was.renames, x.column) != Some(old);
        lemma_explained(was, now, new, old);
    }
    if exists|old: Seq<char>| #[trigger]
        explained(was, now, new, old) && named(was.renames, new) != Some(old) {
        let old = choose|old: Seq<char>| #[trigger]
            explained(was, now, new, old) && named(was.renames, new) != Some(old);
        lemma_explained(was, now, new, old);
        let i = choose|i: int| 0 <= i < now.renames.len() && now.renames[i] == (new, old);
        let f = rename_change(was, now);
        let x = f(now.renames[i])[0];
        assert(f(now.renames[i]).contains(x));
        lemma_gather_member(now.renames, f, x);
        assert(part(was, now, 2).contains(x));
        lemma_parts(was, now, x);
    }
}

proof fn lemma_column_reported(
    was: ModelContractView,
    now: ModelContractView,
    c: ColumnContractView,
    x: ContractChangeView,
)
    requires
        now.columns.contains(c),
        column_change(was, now)(c).contains(x),
    ensures
        contract_changes(Some(was), Some(now)).contains(x),
{
    let f = column_change(was, now);
    let i = choose|i: int| 0 <= i < now.columns.len() && now.columns[i] == c;
    assert(f(now.columns[i]).contains(x));
    lemma_gather_member(now.columns, f, x);
    assert(part(was, now, 4).contains(x));
    lemma_parts(was, now, x);
}

/// A change at a column of the desired contract: the column is held against what
/// it was, under its own name or under the one that a rename explains. It is
/// added, which is safe, where there was nothing. Another declared type breaks
/// consumers unless it widens a number, and losing a declared not-null breaks
/// them, while gaining one is for review.
pub proof fn law_column_changes_are_classified(
    was: ModelContractView,
    now: ModelContractView,
    c: ColumnContractView,
)
    requires
        now.columns.contains(c),
    ensures
        ({
            let all = contract_changes(Some(was), Some(now));
            let before = previous_of(was, now, c.name);
            let retyped = before is Some && before->0.data_type is Some && c.data_type is Some
                && before->0.data_type != c.data_type;
            let nullables = before is Some && before->0.nullable is Some && c.nullable is Some
                && before->0.nullable != c.nullable;
            &&& before is None ==> reports(all, c.name, "added"@, ContractSafety::Safe)
            &&& retyped && !widens(before->0.data_type->0, c.data_type->0) ==> reports(
                all,
                c.name,
                "type_changed"@,
                ContractSafety::Breaking,
            )
            &&& retyped && widens(before->0.data_type->0, c.data_type->0) ==> reports(
                all,
                c.name,
                "type_changed"@,
                ContractSafety::Review,
            )
            &&& nullables && c.nullable == Some(true) ==> reports(
                all,
                c.name,
                "nullability_changed"@,
                ContractSafety::Breaking,
            )
            &&& nullables && c.nullable == Some(false) ==> reports(
                all,
                c.name,
                "nullability_changed"@,
                ContractSafety::Review,
            )
        }),
{
    let before = previous_of(was, now, c.name);
    let f = column_change(was, now);
    if before is None {
        let x = f(c)[0];
        assert(f(c).contains(x));
        lemma_column_reported(was, now, c, x);
    } else {
        let t = type_change(c.name, before->0, c);
        let n = nullability_change(c.name, before->0, c);
        if t.len() > 0 {
            let x = t[0];
            assert(t.contains(x));
            lemma_joined(t, n, x);
            lemma_column_reported(was, now, c, x);
        }
        if n.len() > 0 {
            let x = n[0];
            assert(n.contains(x));
            lemma_joined(t, n, x);
            lemma_column_reported(was, now, c, x);
        }
    }
}

/// Nothing breaks at a column without cause: a breaking change of a type or of
/// nullability is of a desired column whose declared type does not widen what it
/// was, or whose declared not-null is gone.
pub proof fn law_breaking_column_changes_have_a_cause(
    was: ModelContractView,
    now: ModelContractView,
    name: Seq<char>,
)
    ensures
        reports(
            contract_changes(Some(was), Some(now)),
            name,
            "type_changed"@,
            ContractSafety::Breaking,
        ) ==> exists|c: ColumnContractView| #[trigger]
            now.columns.contains(c) && c.name == name && (previous_of(was, now, name) matches Some(
                before,
            ) && before.data_type is Some && c.data_type is Some && before.data_type != c.data_type
                && !widens(before.data_type->0, c.data_type->0)),
        reports(
            contract_changes(Some(was), Some(now)),
            name,
            "nullability_changed"@,
            ContractSafety::Breaking,
        ) ==> exists|c: ColumnContractView| #[trigger]
            now.columns.contains(c) && c.name == name && (previous_of(was, now, name) matches Some(
                before,
            ) && before.nullable == Some(false) && c.nullable == Some(true)),
        reports(contract_changes(Some(was), Some(now)), name, "added"@, ContractSafety::Safe)
            ==> column_named(now.columns, name) is Some && previous_of(was, now, name) is None,
{
    let all = contract_changes(Some(was), Some(now));
    lemma_kinds();
    if reports(all, name, "type_changed"@, ContractSafety::Breaking) {
        let x = choose|x: ContractChangeView| #[trigger]
            all.contains(x) && x.column == name && x.kind == "type_changed"@ && x.safety
                == ContractSafety::Breaking;
        let c = lemma_from_column(was, now, x);
        lemma_column_change_kinds(was, now, c, x);
        assert(now.columns.contains(c));
    }
    if reports(all, name, "nullability_changed"@, ContractSafety::Breaking) {
        let x = choose|x: ContractChangeView| #[trigger]
            all.contains(x) && x.column == name && x.kind == "nullability_changed"@ && x.safety
                == ContractSafety::Breaking;
        let c = lemma_from_column(was, now, x);
        lemma_column_change_kinds(was, now, c, x);
        assert(now.columns.contains(c));
    }
    if reports(all, name, "added"@, ContractSafety::Safe) {
        let x = choose|x: ContractChangeView| #[trigger]
            all.contains(x) && x.column == name && x.kind == "added"@ && x.safety
                == ContractSafety::Safe;
        let c = lemma_from_column(was, now, x);
        lemma_column_change_kinds(was, now, c, x);
        let i = choose|i: int| 0 <= i < now.columns.len() && now.columns[i] == c;
        assert(now.columns[i].name == name);
        law_columns_are_found_by_name(now.columns, name);
    }
}

proof fn lemma_from_column(
    was: ModelContractView,
    now: ModelContractView,
    x: ContractChangeView,
) -> (c: ColumnContractView)
    requires
        contract_changes(Some(was), Some(now)).contains(x),
        x.kind == "added"@ || x.kind == "type_changed"@ || x.kind == "nullability_changed"@,
    ensures
        now.columns.contains(c),
        column_change(was, now)(c).contains(x),
{
    lemma_kinds();
    lemma_parts(was, now, x);
    let k = choose|k: int| 0 <= k < 5 && (#[trigger] part(was, now, k)).contains(x);
    lemma_part_kinds(was, now, k, x);
    assert(k == 4);
    choose|c: ColumnContractView| #[trigger]
        now.columns.contains(c) && column_change(was, now)(c).contains(x)
}

/// What a desired column is held against: the column that a rename explains, else
/// the one of its own name.
pub proof fn law_columns_are_held_against_what_they_were(
    was: ModelContractView,
    now: ModelContractView,
    name: Seq<char>,
)
    requires
        ascending(now.renames),
    ensures
        forall|old: Seq<char>| #[trigger]
            explained(was, now, name, old) ==> previous_of(was, now, name) == column_named(
                was.columns,
                old,
            ),
        (forall|old: Seq<char>| !#[trigger] explained(was, now, name, old)) ==> previous_of(
            was,
            now,
            name,
        ) == column_named(was.columns, name),
{
    let declared = named(now.renames, name);
    assert forall|old: Seq<char>| #[trigger] explained(was, now, name, old) implies previous_of(
        was,
        now,
        name,
    ) == column_named(was.columns, old) by {
        lemma_explained(was, now, name, old);
        let i = choose|i: int| 0 <= i < now.renames.len() && now.renames[i] == (name, old);
        lemma_name_unique(now.renames, i);
    }
    if forall|old: Seq<char>| !#[trigger] explained(was, now, name, old) {
        if declared is Some {
            let old = declared->0;
            let i = crate::names::name_index(now.renames, name);
            assert(crate::names::has_name(now.renames, name));
            assert(now.renames[i] == (name, old));
            assert(now.renames.contains((name, old)));
            lemma_explained(was, now, name, old);
            assert(!explained(was, now, name, old));
        }
    }
}

/// A contract that appears is safe, one that disappears breaks, and giving up
/// enforcement breaks while taking it up is for review.
pub proof fn law_dropped_guarantees_break(was: ModelContractView, now: ModelContractView)
    ensures
        contract_changes(None, None).len() == 0,
        contract_changes(None, Some(now)).len() == 1,
        contract_changes(None, Some(now))[0].safety == ContractSafety::Safe,
        contract_changes(Some(was), None).len() == 1,
        contract_changes(Some(was), None)[0].safety == ContractSafety::Breaking,
        was.enforced && !now.enforced ==> contract_changes(Some(was), Some(now)).len() > 0
            && contract_changes(Some(was), Some(now))[0].safety == ContractSafety::Breaking
            && contract_changes(Some(was), Some(now))[0].kind == "enforcement_changed"@,
        !was.enforced && now.enforced ==> contract_changes(Some(was), Some(now)).len() > 0
            && contract_changes(Some(was), Some(now))[0].safety == ContractSafety::Review,
{
}

/// The breaking changes are exactly those marked so.
pub proof fn law_breaking_changes_are_kept(
    changes: Seq<ContractChangeView>,
    x: ContractChangeView,
)
    ensures
        gather(changes, if_breaking()).contains(x) <==> changes.contains(x) && x.safety
            == ContractSafety::Breaking,
{
    let f = if_breaking();
    lemma_gather_member(changes, f, x);
    if gather(changes, f).contains(x) {
        let i = choose|i: int| 0 <= i < changes.len() && f(#[trigger] changes[i]).contains(x);
        assert(changes[i] == x);
    }
    if changes.contains(x) && x.safety == ContractSafety::Breaking {
        let i = choose|i: int| 0 <= i < changes.len() && changes[i] == x;
        assert(f(changes[i])[0] == x);
        assert(f(changes[i]).contains(x));
    }
}

/// A key changes nothing exactly where it is known and the same; a key that is
/// unknown, changed or dropped breaks, and a new one is for review.
pub proof fn law_keys_break_unless_kept(
    recorded: RecordedKeyView,
    desired: Option<Seq<Seq<Seq<char>>>>,
)
    ensures
        key_difference(recorded, desired) is None <==> recorded == RecordedKeyView::Known(desired),
        key_difference(recorded, desired) matches Some(x) ==> {
            &&& x.safety == ContractSafety::Review <==> recorded == RecordedKeyView::Known(None)
            &&& x.safety == ContractSafety::Breaking <==> recorded != RecordedKeyView::Known(None)
        },
{
}

/// The claims to a model's key are the columns of its key strategy and of each of
/// its uniqueness assertions, and nothing else.
pub proof fn law_keys_are_claimed_by_strategy_and_assertions(
    model: CompiledModelView,
    claim: Seq<Seq<char>>,
)
    ensures
        key_claims(model).contains(claim) <==> model.config.incremental == Some(
            IncrementalStrategyView::Key { columns: claim },
        ) || model.assertions.contains(AssertionView::Unique { columns: claim }),
{
    let f = unique_claim();
    lemma_gather_member(model.assertions, f, claim);
    let own = match model.config.incremental {
        Some(IncrementalStrategyView::Key { columns }) => seq![columns],
        _ => Seq::empty(),
    };
    let asserted = gather(model.assertions, f);
    lemma_joined(own, asserted, claim);
    assert(key_claims(model) =~= own + asserted);
    if model.config.incremental == Some(IncrementalStrategyView::Key { columns: claim }) {
        assert(own[0] == claim);
    }
    if asserted.contains(claim) {
        let i = choose|i: int|
            0 <= i < model.assertions.len() && f(#[trigger] model.assertions[i]).contains(claim);
        assert(model.assertions[i] == AssertionView::Unique { columns: claim });
    }
    if model.assertions.contains(AssertionView::Unique { columns: claim }) {
        let i = choose|i: int|
            0 <= i < model.assertions.len() && model.assertions[i] == (AssertionView::Unique {
                columns: claim,
            });
        assert(f(model.assertions[i])[0] == claim);
        assert(f(model.assertions[i]).contains(claim));
    }
}

} // verus!
