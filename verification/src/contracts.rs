//! Candidate/base contract comparison.
//!
//! [`contract_diff`] turns an opaque change of a contract's hash into a
//! structured, machine-readable report: which columns the contract added,
//! removed, renamed, retightened or relaxed, and whether enforcement changed.
//! Safety uses the same three-level vocabulary as the physical schema diff, so
//! that promotion gates can treat both uniformly.

use vstd::prelude::*;

use crate::names::{ascending, lemma_with_name, named, with_name, NameMap};
use crate::order::{sort_lists, sort_texts, sorted_lists, sorted_texts};
use crate::seqs::{
    gather, last_where, lemma_gather_ends, lemma_gather_step, lemma_last_ends, lemma_last_step,
};
use crate::text::{
    cat3, cat4, cat5, decimal_text, decimal_usize, join, join_text, none_of, one_of, put, put_all,
    same, same_lists, DeepClone,
};
use crate::workspace::{
    type_text, widens, Assertion, AssertionView, ColumnContract, ColumnContractView, CompiledModel,
    CompiledModelView, IncrementalStrategy, IncrementalStrategyView, ModelContract,
    ModelContractView,
};

verus! {

/// How dangerous a contract change is for downstream consumers.
#[derive(Clone, Copy, Debug, PartialEq, Eq, PartialOrd, Ord, Structural)]
pub enum ContractSafety {
    /// Consumption stays valid without action.
    Safe,
    /// Deserves human review but doesn't inherently break consumers.
    Review,
    /// Existing consumers, tests or downstream models can break.
    Breaking,
}

impl DeepView for ContractSafety {
    type V = ContractSafety;

    open spec fn deep_view(&self) -> ContractSafety {
        *self
    }
}

impl DeepClone for ContractSafety {
    fn deep_clone(&self) -> (copy: Self) {
        *self
    }
}

impl ContractSafety {
    pub open spec fn text(self) -> Seq<char> {
        match self {
            ContractSafety::Safe => "safe"@,
            ContractSafety::Review => "review"@,
            ContractSafety::Breaking => "breaking"@,
        }
    }

    pub fn as_str(&self) -> (r: &'static str)
        ensures
            r@ == self.text(),
    {
        match self {
            ContractSafety::Safe => "safe",
            ContractSafety::Review => "review",
            ContractSafety::Breaking => "breaking",
        }
    }
}

/// One entry in a contract diff.
#[derive(Clone, Debug, PartialEq, Eq)]
pub struct ContractChange {
    /// Column the change applies to. For `renamed`, this is the new name.
    pub column: String,
    /// `contract_added`, `contract_removed`, `enforcement_changed`, `added`,
    /// `removed`, `renamed`, `rename_ambiguous`, `type_changed`,
    /// `nullability_changed`, `key_added`, `key_removed`, `key_changed` or
    /// `key_unverifiable`.
    pub kind: String,
    /// Human-readable detail.
    pub detail: String,
    pub safety: ContractSafety,
}

/// The contents of a [`ContractChange`].
pub struct ContractChangeView {
    pub column: Seq<char>,
    pub kind: Seq<char>,
    pub detail: Seq<char>,
    pub safety: ContractSafety,
}

impl DeepView for ContractChange {
    type V = ContractChangeView;

    open spec fn deep_view(&self) -> ContractChangeView {
        ContractChangeView {
            column: self.column@,
            kind: self.kind@,
            detail: self.detail@,
            safety: self.safety,
        }
    }
}

impl DeepClone for ContractChange {
    fn deep_clone(&self) -> (copy: Self) {
        ContractChange {
            column: self.column.deep_clone(),
            kind: self.kind.deep_clone(),
            detail: self.detail.deep_clone(),
            safety: self.safety,
        }
    }
}

/// A change, from its parts.
pub open spec fn change(
    column: Seq<char>,
    kind: Seq<char>,
    detail: Seq<char>,
    safety: ContractSafety,
) -> ContractChangeView {
    ContractChangeView { column, kind, detail, safety }
}

fn make_change(column: &str, kind: &str, detail: String, safety: ContractSafety) -> (r:
    ContractChange)
    ensures
        r.deep_view() == change(column@, kind@, detail@, safety),
{
    ContractChange { column: column.to_owned(), kind: kind.to_owned(), detail, safety }
}

/// Picks the column of a given name.
pub open spec fn is_column(name: Seq<char>) -> spec_fn(ColumnContractView) -> bool {
    |column: ColumnContractView| column.name == name
}

/// The contract of a column; a name listed twice speaks by its last entry.
pub open spec fn column_named(columns: Seq<ColumnContractView>, name: Seq<char>) -> Option<
    ColumnContractView,
> {
    last_where(columns, is_column(name))
}

fn find_column<'a>(columns: &'a Vec<ColumnContract>, name: &str) -> (r: Option<&'a ColumnContract>)
    ensures
        r.deep_view() == column_named(columns.deep_view(), name@),
{
    let ghost views = columns.deep_view();
    let ghost p = is_column(name@);
    proof {
        lemma_last_ends(views, p);
    }
    let mut found: Option<&ColumnContract> = None;
    for i in 0..columns.len()
        invariant
            views == columns.deep_view(),
            p == is_column(name@),
            found.deep_view() == last_where(views.take(i as int), p),
    {
        proof {
            lemma_last_step(views, i as int, p);
        }
        if same(columns[i].name.as_str(), name) {
            found = Some(&columns[i]);
        }
    }
    proof {
        lemma_last_ends(views, p);
    }
    found
}

/// For each old name that declared renames (new name, old name) speak of, in
/// name order: the new names that claim it.
pub open spec fn claims_of(renames: Seq<(Seq<char>, Seq<char>)>) -> Seq<
    (Seq<char>, Seq<Seq<char>>),
>
    decreases renames.len(),
{
    if renames.len() == 0 {
        Seq::empty()
    } else {
        let before = claims_of(renames.drop_last());
        let (new, old) = renames.last();
        with_name(before, old, claimants(before, old).push(new))
    }
}

/// The new names that claim `old`.
pub open spec fn claimants(claims: Seq<(Seq<char>, Seq<Seq<char>>)>, old: Seq<char>) -> Seq<
    Seq<char>,
> {
    match named(claims, old) {
        Some(news) => news,
        None => Seq::empty(),
    }
}

/// Claims are kept in name order.
pub proof fn lemma_claims_ascending(renames: Seq<(Seq<char>, Seq<char>)>)
    ensures
        ascending(claims_of(renames)),
    decreases renames.len(),
{
    if renames.len() > 0 {
        let before = claims_of(renames.drop_last());
        let (new, old) = renames.last();
        lemma_claims_ascending(renames.drop_last());
        lemma_with_name(before, old, claimants(before, old).push(new));
    }
}

/// Collects the claims that declared renames make.
pub fn collect_claims(renames: &NameMap<String>) -> (claims: NameMap<Vec<String>>)
    ensures
        claims.deep_view() == claims_of(renames.deep_view()),
{
    let mut claims: NameMap<Vec<String>> = NameMap::new();
    let n: usize = renames.len();
    let ghost views = renames.deep_view();
    assert(views.take(0) =~= Seq::<(Seq<char>, Seq<char>)>::empty());
    for i in 0..n
        invariant
            n == views.len(),
            views == renames.deep_view(),
            claims.deep_view() == claims_of(views.take(i as int)),
    {
        let new: &String = renames.key_at(i);
        let old: &String = renames.value_at(i);
        assert(views.take(i as int + 1).drop_last() =~= views.take(i as int));
        assert(views.take(i as int + 1).last() == views[i as int]);
        let mut news: Vec<String> = match claims.get(old.as_str()) {
            Some(found) => found.deep_clone(),
            None => none_of(),
        };
        put(&mut news, new.clone());
        claims.insert(old.clone(), news);
    }
    assert(views.take(views.len() as int) =~= views);
    claims
}

/// More than one new column claims to have been `old`.
pub open spec fn is_ambiguous(renames: Seq<(Seq<char>, Seq<char>)>, old: Seq<char>) -> bool {
    claimants(claims_of(renames), old).len() > 1
}

/// Whether the declaration that `old` became `new` explains anything: nobody
/// else claims `old`, `new` is a desired column that did not exist before, and
/// `old` did.
pub open spec fn rename_resolves(
    previous: ModelContractView,
    desired: ModelContractView,
    new: Seq<char>,
    old: Seq<char>,
) -> bool {
    &&& !is_ambiguous(desired.renames, old)
    &&& column_named(desired.columns, new) is Some
    &&& column_named(previous.columns, new) is None
    &&& column_named(previous.columns, old) is Some
}

/// The old name of `new`, where a declared rename resolves it.
pub open spec fn resolved_old(
    previous: ModelContractView,
    desired: ModelContractView,
    new: Seq<char>,
) -> Option<Seq<char>> {
    match named(desired.renames, new) {
        Some(old) => if rename_resolves(previous, desired, new, old) {
            Some(old)
        } else {
            None
        },
        None => None,
    }
}

/// Whether a resolved rename accounts for the disappearance of `old`.
pub open spec fn renamed_away(
    previous: ModelContractView,
    desired: ModelContractView,
    old: Seq<char>,
) -> bool {
    exists|i: int|
        0 <= i < desired.renames.len() && (#[trigger] desired.renames[i]).1 == old
            && rename_resolves(previous, desired, desired.renames[i].0, old)
}

/// The change that a switch of enforcement is.
pub open spec fn enforcement_change(
    previous: ModelContractView,
    desired: ModelContractView,
) -> Seq<ContractChangeView> {
    if previous.enforced == desired.enforced {
        Seq::empty()
    } else if desired.enforced {
        seq![
            change(
                Seq::empty(),
                "enforcement_changed"@,
                "contract now enforced — violations become errors"@,
                ContractSafety::Review,
            ),
        ]
    } else {
        seq![
            change(
                Seq::empty(),
                "enforcement_changed"@,
                "contract no longer enforced — violations downgrade to warnings"@,
                ContractSafety::Breaking,
            ),
        ]
    }
}

/// Reports an old name that more than one new column claims.
pub open spec fn ambiguity_change(previous: ModelContractView) -> spec_fn(
    (Seq<char>, Seq<Seq<char>>),
) -> Seq<ContractChangeView> {
    |claim: (Seq<char>, Seq<Seq<char>>)|
        if claim.1.len() > 1 && column_named(previous.columns, claim.0) is Some {
            seq![
                change(
                    claim.0,
                    "rename_ambiguous"@,
                    "declared renames for `"@ + claim.0 + "` are ambiguous: "@ + join_text(
                        claim.1,
                        ", "@,
                    ),
                    ContractSafety::Review,
                ),
            ]
        } else {
            Seq::empty()
        }
}

/// Reports a rename that resolves, unless the previous contract had already
/// declared it.
pub open spec fn rename_change(
    previous: ModelContractView,
    desired: ModelContractView,
) -> spec_fn((Seq<char>, Seq<char>)) -> Seq<ContractChangeView> {
    |rename: (Seq<char>, Seq<char>)|
        if rename_resolves(previous, desired, rename.0, rename.1) && named(
            previous.renames,
            rename.0,
        ) != Some(rename.1) {
            seq![
                change(
                    rename.0,
                    "renamed"@,
                    "renamed from `"@ + rename.1 + "`"@,
                    ContractSafety::Breaking,
                ),
            ]
        } else {
            Seq::empty()
        }
}

/// Reports a column of the previous contract that is gone, and not by a
/// resolved rename.
pub open spec fn removal_change(
    previous: ModelContractView,
    desired: ModelContractView,
) -> spec_fn(ColumnContractView) -> Seq<ContractChangeView> {
    |column: ColumnContractView|
        if column_named(desired.columns, column.name) is None && !renamed_away(
            previous,
            desired,
            column.name,
        ) {
            seq![
                change(
                    column.name,
                    "removed"@,
                    "contract column removed"@,
                    ContractSafety::Breaking,
                ),
            ]
        } else {
            Seq::empty()
        }
}

/// The previous contract a desired column is held against: that of its old
/// name where a rename resolves, else that of its own name.
pub open spec fn previous_of(
    previous: ModelContractView,
    desired: ModelContractView,
    name: Seq<char>,
) -> Option<ColumnContractView> {
    match resolved_old(previous, desired, name) {
        Some(old) => column_named(previous.columns, old),
        None => column_named(previous.columns, name),
    }
}

/// What a column's contract says, in words.
pub open spec fn column_text(column: ColumnContractView) -> Seq<char> {
    match (column.data_type, column.nullable) {
        (Some(data_type), Some(nullable)) => type_text(data_type) + ", "@ + nullable_text(nullable),
        (Some(data_type), None) => type_text(data_type),
        (None, Some(nullable)) => nullable_text(nullable),
        (None, None) => "untyped"@,
    }
}

pub open spec fn nullable_text(nullable: bool) -> Seq<char> {
    if nullable {
        "nullable"@
    } else {
        "non-null"@
    }
}

/// The change of a column's declared type, if both sides declare one.
pub open spec fn type_change(
    name: Seq<char>,
    previous: ColumnContractView,
    desired: ColumnContractView,
) -> Seq<ContractChangeView> {
    match (previous.data_type, desired.data_type) {
        (Some(was), Some(now)) => if was != now {
            seq![
                change(
                    name,
                    "type_changed"@,
                    "contract type `"@ + type_text(was) + "` → `"@ + type_text(now) + "`"@,
                    if widens(was, now) {
                        ContractSafety::Review
                    } else {
                        ContractSafety::Breaking
                    },
                ),
            ]
        } else {
            Seq::empty()
        },
        _ => Seq::empty(),
    }
}

/// The change of a column's declared nullability, if both sides declare one.
/// Losing a guarantee breaks consumers; gaining one does not.
pub open spec fn nullability_change(
    name: Seq<char>,
    previous: ColumnContractView,
    desired: ColumnContractView,
) -> Seq<ContractChangeView> {
    match (previous.nullable, desired.nullable) {
        (Some(was), Some(now)) => if was != now {
            if now {
                seq![
                    change(
                        name,
                        "nullability_changed"@,
                        "contract relaxed to nullable"@,
                        ContractSafety::Breaking,
                    ),
                ]
            } else {
                seq![
                    change(
                        name,
                        "nullability_changed"@,
                        "contract tightened to non-null"@,
                        ContractSafety::Review,
                    ),
                ]
            }
        } else {
            Seq::empty()
        },
        _ => Seq::empty(),
    }
}

/// Reports a desired column: added, or changed against its previous contract.
pub open spec fn column_change(
    previous: ModelContractView,
    desired: ModelContractView,
) -> spec_fn(ColumnContractView) -> Seq<ContractChangeView> {
    |column: ColumnContractView|
        match previous_of(previous, desired, column.name) {
            None => seq![
                change(
                    column.name,
                    "added"@,
                    "contract column added ("@ + column_text(column) + ")"@,
                    ContractSafety::Safe,
                ),
            ],
            Some(before) => type_change(column.name, before, column) + nullability_change(
                column.name,
                before,
                column,
            ),
        }
}

/// The whole diff of two contracts, either of which may be missing.
pub open spec fn contract_changes(
    previous: Option<ModelContractView>,
    desired: Option<ModelContractView>,
) -> Seq<ContractChangeView> {
    match (previous, desired) {
        (None, None) => Seq::empty(),
        (None, Some(now)) => seq![
            change(
                Seq::empty(),
                "contract_added"@,
                "contract declared ("@ + decimal_text(now.columns.len()) + " columns)"@,
                ContractSafety::Safe,
            ),
        ],
        (Some(was), None) => seq![
            change(
                Seq::empty(),
                "contract_removed"@,
                "contract dropped ("@ + decimal_text(was.columns.len()) + " columns)"@,
                ContractSafety::Breaking,
            ),
        ],
        (Some(was), Some(now)) => enforcement_change(was, now) + gather(
            claims_of(now.renames),
            ambiguity_change(was),
        ) + gather(now.renames, rename_change(was, now)) + gather(
            was.columns,
            removal_change(was, now),
        ) + gather(now.columns, column_change(was, now)),
    }
}

fn enforcement(previous: &ModelContract, desired: &ModelContract) -> (r: Vec<ContractChange>)
    ensures
        r.deep_view() == enforcement_change(previous.deep_view(), desired.deep_view()),
{
    if previous.enforced == desired.enforced {
        none_of()
    } else if desired.enforced {
        let empty: String = String::new();
        one_of(
            make_change(
                empty.as_str(),
                "enforcement_changed",
                "contract now enforced — violations become errors".to_owned(),
                ContractSafety::Review,
            ),
        )
    } else {
        let empty: String = String::new();
        one_of(
            make_change(
                empty.as_str(),
                "enforcement_changed",
                "contract no longer enforced — violations downgrade to warnings".to_owned(),
                ContractSafety::Breaking,
            ),
        )
    }
}

fn ambiguities(previous: &ModelContract, claims: &NameMap<Vec<String>>) -> (r: Vec<ContractChange>)
    ensures
        r.deep_view() == gather(claims.deep_view(), ambiguity_change(previous.deep_view())),
{
    let ghost views = claims.deep_view();
    let ghost f = ambiguity_change(previous.deep_view());
    proof {
        lemma_gather_ends(views, f);
    }
    let mut r: Vec<ContractChange> = none_of();
    let n: usize = claims.len();
    for i in 0..n
        invariant
            n == views.len(),
            views == claims.deep_view(),
            f == ambiguity_change(previous.deep_view()),
            r.deep_view() == gather(views.take(i as int), f),
    {
        proof {
            lemma_gather_step(views, i as int, f);
        }
        let ghost before = r.deep_view();
        let old: &String = claims.key_at(i);
        let news: &Vec<String> = claims.value_at(i);
        assert(news@.len() == news.deep_view().len());
        if news.len() > 1 && find_column(&previous.columns, old.as_str()).is_some() {
            let list: &[String] = news.as_slice();
            assert(list.deep_view() =~= news.deep_view());
            let detail: String = cat4(
                "declared renames for `",
                old.as_str(),
                "` are ambiguous: ",
                join(list, ", ").as_str(),
            );
            put(
                &mut r,
                make_change(old.as_str(), "rename_ambiguous", detail, ContractSafety::Review),
            );
        }
        assert(r.deep_view() =~= before + f(views[i as int]));
    }
    r
}

fn resolves(
    previous: &ModelContract,
    desired: &ModelContract,
    claims: &NameMap<Vec<String>>,
    new: &str,
    old: &str,
) -> (r: bool)
    requires
        claims.deep_view() == claims_of(desired.deep_view().renames),
    ensures
        r == rename_resolves(previous.deep_view(), desired.deep_view(), new@, old@),
{
    let ambiguous: bool = match claims.get(old) {
        Some(news) => {
            assert(news@.len() == news.deep_view().len());
            news.len() > 1
        },
        None => false,
    };
    !ambiguous && find_column(&desired.columns, new).is_some() && find_column(
        &previous.columns,
        new,
    ).is_none() && find_column(&previous.columns, old).is_some()
}

fn renames_between(
    previous: &ModelContract,
    desired: &ModelContract,
    claims: &NameMap<Vec<String>>,
) -> (r: Vec<ContractChange>)
    requires
        claims.deep_view() == claims_of(desired.deep_view().renames),
    ensures
        r.deep_view() == gather(
            desired.deep_view().renames,
            rename_change(previous.deep_view(), desired.deep_view()),
        ),
{
    let ghost views = desired.renames.deep_view();
    let ghost f = rename_change(previous.deep_view(), desired.deep_view());
    proof {
        lemma_gather_ends(views, f);
    }
    let mut r: Vec<ContractChange> = none_of();
    let n: usize = desired.renames.len();
    for i in 0..n
        invariant
            n == views.len(),
            views == desired.renames.deep_view(),
            f == rename_change(previous.deep_view(), desired.deep_view()),
            claims.deep_view() == claims_of(desired.deep_view().renames),
            r.deep_view() == gather(views.take(i as int), f),
    {
        proof {
            lemma_gather_step(views, i as int, f);
        }
        let ghost before = r.deep_view();
        let new: &String = desired.renames.key_at(i);
        let old: &String = desired.renames.value_at(i);
        if resolves(previous, desired, claims, new.as_str(), old.as_str()) {
            let known: bool = match previous.renames.get(new.as_str()) {
                Some(was) => same(was.as_str(), old.as_str()),
                None => false,
            };
            if !known {
                put(
                    &mut r,
                    make_change(
                        new.as_str(),
                        "renamed",
                        cat3("renamed from `", old.as_str(), "`"),
                        ContractSafety::Breaking,
                    ),
                );
            }
        }
        assert(r.deep_view() =~= before + f(views[i as int]));
    }
    r
}

fn is_renamed_away(
    previous: &ModelContract,
    desired: &ModelContract,
    claims: &NameMap<Vec<String>>,
    name: &str,
) -> (r: bool)
    requires
        claims.deep_view() == claims_of(desired.deep_view().renames),
    ensures
        r == renamed_away(previous.deep_view(), desired.deep_view(), name@),
{
    let ghost views = desired.renames.deep_view();
    let n: usize = desired.renames.len();
    for i in 0..n
        invariant
            n == views.len(),
            views == desired.renames.deep_view(),
            claims.deep_view() == claims_of(desired.deep_view().renames),
            forall|j: int|
                0 <= j < i ==> !((#[trigger] views[j]).1 == name@ && rename_resolves(
                    previous.deep_view(),
                    desired.deep_view(),
                    views[j].0,
                    name@,
                )),
    {
        let new: &String = desired.renames.key_at(i);
        let old: &String = desired.renames.value_at(i);
        if same(old.as_str(), name) && resolves(previous, desired, claims, new.as_str(), name) {
            assert(desired.deep_view().renames[i as int].1 == name@);
            return true;
        }
    }
    false
}

fn removals(
    previous: &ModelContract,
    desired: &ModelContract,
    claims: &NameMap<Vec<String>>,
) -> (r: Vec<ContractChange>)
    requires
        claims.deep_view() == claims_of(desired.deep_view().renames),
    ensures
        r.deep_view() == gather(
            previous.deep_view().columns,
            removal_change(previous.deep_view(), desired.deep_view()),
        ),
{
    let ghost views = previous.columns.deep_view();
    let ghost f = removal_change(previous.deep_view(), desired.deep_view());
    proof {
        lemma_gather_ends(views, f);
    }
    let mut r: Vec<ContractChange> = none_of();
    for i in 0..previous.columns.len()
        invariant
            views == previous.columns.deep_view(),
            f == removal_change(previous.deep_view(), desired.deep_view()),
            claims.deep_view() == claims_of(desired.deep_view().renames),
            r.deep_view() == gather(views.take(i as int), f),
    {
        proof {
            lemma_gather_step(views, i as int, f);
        }
        let ghost before = r.deep_view();
        let name: &String = &previous.columns[i].name;
        if find_column(&desired.columns, name.as_str()).is_none() && !is_renamed_away(
            previous,
            desired,
            claims,
            name.as_str(),
        ) {
            put(
                &mut r,
                make_change(
                    name.as_str(),
                    "removed",
                    "contract column removed".to_owned(),
                    ContractSafety::Breaking,
                ),
            );
        }
        assert(r.deep_view() =~= before + f(views[i as int]));
    }
    r
}

fn nullable_word(nullable: bool) -> (r: &'static str)
    ensures
        r@ == nullable_text(nullable),
{
    if nullable {
        "nullable"
    } else {
        "non-null"
    }
}

fn describe_column(column: &ColumnContract) -> (r: String)
    ensures
        r@ == column_text(column.deep_view()),
{
    match (&column.data_type, column.nullable) {
        (Some(data_type), Some(nullable)) => cat3(
            data_type.name().as_str(),
            ", ",
            nullable_word(nullable),
        ),
        (Some(data_type), None) => data_type.name(),
        (None, Some(nullable)) => nullable_word(nullable).to_owned(),
        (None, None) => "untyped".to_owned(),
    }
}

/// Type and nullability changes between two contract columns, under the
/// desired column's name.
fn compare_column_contracts(
    name: &str,
    previous: &ColumnContract,
    desired: &ColumnContract,
) -> (r: Vec<ContractChange>)
    ensures
        r.deep_view() == type_change(name@, previous.deep_view(), desired.deep_view())
            + nullability_change(name@, previous.deep_view(), desired.deep_view()),
{
    let mut r: Vec<ContractChange> = none_of();
    if let (Some(was), Some(now)) = (&previous.data_type, &desired.data_type) {
        if !was.same_as(now) {
            let detail: String = cat5(
                "contract type `",
                was.name().as_str(),
                "` → `",
                now.name().as_str(),
                "`",
            );
            let safety: ContractSafety = if now.is_widening_of(was) {
                ContractSafety::Review
            } else {
                ContractSafety::Breaking
            };
            put(&mut r, make_change(name, "type_changed", detail, safety));
        }
    }
    assert(r.deep_view() =~= type_change(name@, previous.deep_view(), desired.deep_view()));
    if let (Some(was), Some(now)) = (previous.nullable, desired.nullable) {
        if was != now {
            if now {
                put(
                    &mut r,
                    make_change(
                        name,
                        "nullability_changed",
                        "contract relaxed to nullable".to_owned(),
                        ContractSafety::Breaking,
                    ),
                );
            } else {
                put(
                    &mut r,
                    make_change(
                        name,
                        "nullability_changed",
                        "contract tightened to non-null".to_owned(),
                        ContractSafety::Review,
                    ),
                );
            }
        }
    }
    assert(r.deep_view() =~= type_change(name@, previous.deep_view(), desired.deep_view())
        + nullability_change(name@, previous.deep_view(), desired.deep_view()));
    r
}

fn find_previous<'a>(
    previous: &'a ModelContract,
    desired: &ModelContract,
    claims: &NameMap<Vec<String>>,
    name: &str,
) -> (r: Option<&'a ColumnContract>)
    requires
        claims.deep_view() == claims_of(desired.deep_view().renames),
    ensures
        r.deep_view() == previous_of(previous.deep_view(), desired.deep_view(), name@),
{
    match desired.renames.get(name) {
        Some(old) => if resolves(previous, desired, claims, name, old.as_str()) {
            find_column(&previous.columns, old.as_str())
        } else {
            find_column(&previous.columns, name)
        },
        None => find_column(&previous.columns, name),
    }
}

fn columns_between(
    previous: &ModelContract,
    desired: &ModelContract,
    claims: &NameMap<Vec<String>>,
) -> (r: Vec<ContractChange>)
    requires
        claims.deep_view() == claims_of(desired.deep_view().renames),
    ensures
        r.deep_view() == gather(
            desired.deep_view().columns,
            column_change(previous.deep_view(), desired.deep_view()),
        ),
{
    let ghost views = desired.columns.deep_view();
    let ghost f = column_change(previous.deep_view(), desired.deep_view());
    proof {
        lemma_gather_ends(views, f);
    }
    let mut r: Vec<ContractChange> = none_of();
    for i in 0..desired.columns.len()
        invariant
            views == desired.columns.deep_view(),
            f == column_change(previous.deep_view(), desired.deep_view()),
            claims.deep_view() == claims_of(desired.deep_view().renames),
            r.deep_view() == gather(views.take(i as int), f),
    {
        proof {
            lemma_gather_step(views, i as int, f);
        }
        let ghost before = r.deep_view();
        let column: &ColumnContract = &desired.columns[i];
        assert(column.deep_view() == views[i as int]);
        match find_previous(previous, desired, claims, column.name.as_str()) {
            None => {
                let detail: String = cat3(
                    "contract column added (",
                    describe_column(column).as_str(),
                    ")",
                );
                put(
                    &mut r,
                    make_change(column.name.as_str(), "added", detail, ContractSafety::Safe),
                );
            },
            Some(was) => {
                let found: Vec<ContractChange> = compare_column_contracts(
                    column.name.as_str(),
                    was,
                    column,
                );
                put_all(&mut r, found);
            },
        }
        assert(r.deep_view() =~= before + f(views[i as int]));
    }
    r
}

/// Diff a previous contract against a desired contract.
///
/// `previous` may be `None` (no contract recorded on the base side) and
/// `desired` may be `None` (the model dropped its contract): both are
/// reported as changes rather than being silently ignored.
pub fn contract_diff(
    previous: Option<&ModelContract>,
    desired: Option<&ModelContract>,
) -> (changes: Vec<ContractChange>)
    ensures
        changes.deep_view() == contract_changes(previous.deep_view(), desired.deep_view()),
{
    let empty: String = String::new();
    match (previous, desired) {
        (None, None) => none_of(),
        (None, Some(now)) => {
            assert(now.columns@.len() == now.columns.deep_view().len());
            let detail: String = cat3(
                "contract declared (",
                decimal_usize(now.columns.len()).as_str(),
                " columns)",
            );
            one_of(make_change(empty.as_str(), "contract_added", detail, ContractSafety::Safe))
        },
        (Some(was), None) => {
            assert(was.columns@.len() == was.columns.deep_view().len());
            let detail: String = cat3(
                "contract dropped (",
                decimal_usize(was.columns.len()).as_str(),
                " columns)",
            );
            one_of(
                make_change(empty.as_str(), "contract_removed", detail, ContractSafety::Breaking),
            )
        },
        (Some(was), Some(now)) => {
            let claims: NameMap<Vec<String>> = collect_claims(&now.renames);
            let mut changes: Vec<ContractChange> = enforcement(was, now);
            put_all(&mut changes, ambiguities(was, &claims));
            put_all(&mut changes, renames_between(was, now, &claims));
            put_all(&mut changes, removals(was, now, &claims));
            put_all(&mut changes, columns_between(was, now, &claims));
            changes
        },
    }
}

/// Sequences without equal neighbours: every run of equal elements is kept
/// once.
pub open spec fn without_repeats<A>(items: Seq<A>) -> Seq<A>
    decreases items.len(),
{
    if items.len() <= 1 {
        items
    } else if items.last() == items[items.len() - 2] {
        without_repeats(items.drop_last())
    } else {
        without_repeats(items.drop_last()).push(items.last())
    }
}

/// The column set an assertion claims to be unique.
pub open spec fn unique_claim() -> spec_fn(AssertionView) -> Seq<Seq<Seq<char>>> {
    |assertion: AssertionView|
        match assertion {
            AssertionView::Unique { columns } => seq![columns],
            _ => Seq::empty(),
        }
}

/// The row-identity claims of a model as declared: the key of its incremental
/// strategy, then each uniqueness assertion.
pub open spec fn key_claims(model: CompiledModelView) -> Seq<Seq<Seq<char>>> {
    let key = match model.config.incremental {
        Some(IncrementalStrategyView::Key { columns }) => seq![columns],
        _ => Seq::empty(),
    };
    key + gather(model.assertions, unique_claim())
}

/// Each claim with its columns sorted.
pub open spec fn sorted_claims(claims: Seq<Seq<Seq<char>>>) -> Seq<Seq<Seq<char>>> {
    Seq::new(claims.len(), |i: int| sorted_texts(claims[i]))
}

/// The canonical form of claims: the columns of each sorted, the claims sorted
/// and without repeats; nothing where there is no claim.
pub open spec fn canonical_claims(claims: Seq<Seq<Seq<char>>>) -> Option<Seq<Seq<Seq<char>>>> {
    if claims.len() == 0 {
        None
    } else {
        Some(without_repeats(sorted_lists(sorted_claims(claims))))
    }
}

/// Keeps one of each run of equal lists.
pub fn drop_repeats(items: &Vec<Vec<String>>) -> (r: Vec<Vec<String>>)
    ensures
        r.deep_view() == without_repeats(items.deep_view()),
{
    let ghost views = items.deep_view();
    let mut r: Vec<Vec<String>> = none_of();
    assert(views.take(0) =~= Seq::<Seq<Seq<char>>>::empty());
    for i in 0..items.len()
        invariant
            views == items.deep_view(),
            r.deep_view() == without_repeats(views.take(i as int)),
    {
        let ghost grown = views.take(i as int + 1);
        assert(grown.drop_last() =~= views.take(i as int));
        assert(grown.last() == views[i as int]);
        if i == 0 {
            assert(views.take(0) =~= Seq::<Seq<Seq<char>>>::empty());
            put(&mut r, items[i].deep_clone());
            assert(r.deep_view() =~= grown);
        } else {
            let left: &[String] = items[i].as_slice();
            let right: &[String] = items[i - 1].as_slice();
            assert(left.deep_view() =~= views[i as int]);
            assert(right.deep_view() =~= views[i - 1]);
            assert(grown[grown.len() - 2] == views[i - 1]);
            if !crate::text::same_list(left, right) {
                put(&mut r, items[i].deep_clone());
            }
        }
    }
    assert(views.take(views.len() as int) =~= views);
    r
}

/// Sorts the columns of each claim.
pub fn sort_claims(claims: &Vec<Vec<String>>) -> (r: Vec<Vec<String>>)
    ensures
        r.deep_view() == sorted_claims(claims.deep_view()),
        r@.len() == claims@.len(),
{
    let mut each: Vec<Vec<String>> = Vec::new();
    for i in 0..claims.len()
        invariant
            each@.len() == i,
            forall|j: int|
                0 <= j < i ==> (#[trigger] each@[j]).deep_view() == sorted_texts(
                    claims@[j].deep_view(),
                ),
    {
        each.push(sort_texts(&claims[i]));
    }
    assert(each.deep_view() =~= sorted_claims(claims.deep_view()));
    each
}

/// The canonical form of a list of claims.
pub fn canonical_key(claims: &Vec<Vec<String>>) -> (key: Option<Vec<Vec<String>>>)
    ensures
        key.deep_view() == canonical_claims(claims.deep_view()),
{
    assert(claims.deep_view().len() == claims@.len());
    if claims.len() == 0 {
        None
    } else {
        let each: Vec<Vec<String>> = sort_claims(claims);
        let all: Vec<Vec<String>> = sort_lists(&each);
        Some(drop_repeats(&all))
    }
}

/// The effective row-identity key of a model.
pub open spec fn model_key(model: CompiledModelView) -> Option<Seq<Seq<Seq<char>>>> {
    canonical_claims(key_claims(model))
}

/// The effective row-identity key of a model: the semantic concept that
/// incremental `key` columns and native unique assertions collapse onto. Each
/// claim contributes one column set, and sets stay distinct: `unique(a)` and
/// `unique(b)` together are a stronger identity claim than `unique(a, b)`.
/// `None` when the model declares no key at all.
pub fn effective_key(model: &CompiledModel) -> (key: Option<Vec<Vec<String>>>)
    ensures
        key.deep_view() == model_key(model.deep_view()),
{
    let mut claims: Vec<Vec<String>> = match &model.config.incremental {
        Some(IncrementalStrategy::Key { columns }) => one_of(columns.deep_clone()),
        _ => none_of(),
    };
    let ghost start = claims.deep_view();
    let ghost views = model.assertions.deep_view();
    let ghost f = unique_claim();
    proof {
        lemma_gather_ends(views, f);
        assert(start + Seq::<Seq<Seq<char>>>::empty() =~= start);
    }
    for i in 0..model.assertions.len()
        invariant
            views == model.assertions.deep_view(),
            f == unique_claim(),
            claims.deep_view() == start + gather(views.take(i as int), f),
    {
        proof {
            lemma_gather_step(views, i as int, f);
        }
        let ghost before = claims.deep_view();
        let assertion: &Assertion = &model.assertions[i];
        assert(assertion.deep_view() == views[i as int]);
        if let Assertion::Unique { columns } = assertion {
            put(&mut claims, columns.deep_clone());
        }
        assert(claims.deep_view() =~= before + f(views[i as int]));
        assert(before + f(views[i as int]) =~= start + (gather(views.take(i as int), f) + f(
            views[i as int],
        )));
    }
    canonical_key(&claims)
}

/// What a materialisation record can prove about the key it was written with.
#[derive(Clone, Debug, PartialEq, Eq)]
pub enum RecordedKey {
    /// The key is known: `Some` claims, or `None` meaning the record
    /// definitely proves the materialised model had no key.
    Known(Option<Vec<Vec<String>>>),
    /// The row predates effective-key persistence and carries no incremental
    /// key either: its historical key cannot be told from "no key".
    Unknown,
}

/// The contents of a [`RecordedKey`].
pub enum RecordedKeyView {
    Known(Option<Seq<Seq<Seq<char>>>>),
    Unknown,
}

impl DeepView for RecordedKey {
    type V = RecordedKeyView;

    open spec fn deep_view(&self) -> RecordedKeyView {
        match self {
            RecordedKey::Known(value) => RecordedKeyView::Known(value.deep_view()),
            RecordedKey::Unknown => RecordedKeyView::Unknown,
        }
    }
}

impl DeepClone for RecordedKey {
    fn deep_clone(&self) -> (copy: Self) {
        match self {
            RecordedKey::Known(value) => RecordedKey::Known(value.deep_clone()),
            RecordedKey::Unknown => RecordedKey::Unknown,
        }
    }
}

impl RecordedKey {
    /// The claims the record proves; `None` for an unverifiable record.
    pub fn as_deref(&self) -> (r: Option<&[Vec<String>]>)
        ensures
            r.deep_view() == match self.deep_view() {
                RecordedKeyView::Known(key) => key,
                RecordedKeyView::Unknown => None,
            },
    {
        match self {
            RecordedKey::Known(Some(key)) => {
                let claims: &[Vec<String>] = key.as_slice();
                assert(claims.deep_view() =~= key.deep_view());
                Some(claims)
            },
            RecordedKey::Known(None) => None,
            RecordedKey::Unknown => None,
        }
    }
}

/// The claims in words: columns joined by `+`, claims by commas.
pub open spec fn key_text(key: Seq<Seq<Seq<char>>>) -> Seq<char> {
    join_text(Seq::new(key.len(), |i: int| join_text(key[i], "+"@)), ", "@)
}

fn render_key(key: &[Vec<String>]) -> (r: String)
    ensures
        r@ == key_text(key.deep_view()),
{
    let mut parts: Vec<String> = Vec::new();
    for i in 0..key.len()
        invariant
            parts@.len() == i,
            forall|j: int|
                0 <= j < i ==> (#[trigger] parts@[j])@ == join_text(key@[j].deep_view(), "+"@),
    {
        let columns: &[String] = key[i].as_slice();
        assert(columns.deep_view() =~= key@[i as int].deep_view());
        parts.push(join(columns, "+"));
    }
    let list: &[String] = parts.as_slice();
    assert(list.deep_view() =~= Seq::new(
        key.deep_view().len(),
        |i: int| join_text(key.deep_view()[i], "+"@),
    ));
    join(list, ", ")
}

/// How a recorded key compares against the desired one.
pub open spec fn key_difference(
    recorded: RecordedKeyView,
    desired: Option<Seq<Seq<Seq<char>>>>,
) -> Option<ContractChangeView> {
    match recorded {
        RecordedKeyView::Unknown => Some(
            change(
                Seq::empty(),
                "key_unverifiable"@,
                "the base materialisation predates key persistence — its historical key cannot be verified; rematerialise the base environment to bind it"@,
                ContractSafety::Breaking,
            ),
        ),
        RecordedKeyView::Known(known) => match (known, desired) {
            (Some(was), Some(now)) => if was != now {
                Some(
                    change(
                        Seq::empty(),
                        "key_changed"@,
                        "key changed: `"@ + key_text(was) + "` → `"@ + key_text(now) + "`"@,
                        ContractSafety::Breaking,
                    ),
                )
            } else {
                None
            },
            (Some(was), None) => Some(
                change(
                    Seq::empty(),
                    "key_removed"@,
                    "key `"@ + key_text(was) + "` dropped"@,
                    ContractSafety::Breaking,
                ),
            ),
            (None, Some(now)) => Some(
                change(
                    Seq::empty(),
                    "key_added"@,
                    "key `"@ + key_text(now) + "` declared"@,
                    ContractSafety::Review,
                ),
            ),
            (None, None) => None,
        },
    }
}

/// Compare a recorded key against the desired effective key. Changing or
/// dropping the key is breaking: it changes row identity for merges and for
/// any consumer relying on the uniqueness guarantee. A newly declared key is a
/// new guarantee: safe direction, worth reviewing. A record whose historical
/// key cannot be verified fails closed: it may be hiding a changed or dropped
/// key.
pub fn key_change(recorded: &RecordedKey, desired: Option<&[Vec<String>]>) -> (r: Option<
    ContractChange,
>)
    ensures
        r.deep_view() == key_difference(recorded.deep_view(), desired.deep_view()),
{
    let empty: String = String::new();
    match recorded {
        RecordedKey::Unknown => Some(
            make_change(
                empty.as_str(),
                "key_unverifiable",
                "the base materialisation predates key persistence — its historical key cannot be verified; rematerialise the base environment to bind it".to_owned(),
                ContractSafety::Breaking,
            ),
        ),
        RecordedKey::Known(Some(key)) => {
            let was: &[Vec<String>] = key.as_slice();
            assert(was.deep_view() =~= key.deep_view());
            match desired {
                Some(now) => if same_lists(was, now) {
                    None
                } else {
                    let detail: String = cat5(
                        "key changed: `",
                        render_key(was).as_str(),
                        "` → `",
                        render_key(now).as_str(),
                        "`",
                    );
                    Some(
                        make_change(
                            empty.as_str(),
                            "key_changed",
                            detail,
                            ContractSafety::Breaking,
                        ),
                    )
                },
                None => {
                    let detail: String = cat3("key `", render_key(was).as_str(), "` dropped");
                    Some(
                        make_change(
                            empty.as_str(),
                            "key_removed",
                            detail,
                            ContractSafety::Breaking,
                        ),
                    )
                },
            }
        },
        RecordedKey::Known(None) => match desired {
            Some(now) => {
                let detail: String = cat3("key `", render_key(now).as_str(), "` declared");
                Some(make_change(empty.as_str(), "key_added", detail, ContractSafety::Review))
            },
            None => None,
        },
    }
}

/// Keeps a breaking change.
pub open spec fn if_breaking() -> spec_fn(ContractChangeView) -> Seq<ContractChangeView> {
    |item: ContractChangeView|
        if item.safety == ContractSafety::Breaking {
            seq![item]
        } else {
            Seq::empty()
        }
}

/// The breaking subset of a contract diff: what promotion must gate on.
pub fn breaking_contract_changes(changes: &[ContractChange]) -> (r: Vec<ContractChange>)
    ensures
        r.deep_view() == gather(changes.deep_view(), if_breaking()),
{
    let ghost views = changes.deep_view();
    let ghost f = if_breaking();
    proof {
        lemma_gather_ends(views, f);
    }
    let mut r: Vec<ContractChange> = none_of();
    for i in 0..changes.len()
        invariant
            views == changes.deep_view(),
            f == if_breaking(),
            r.deep_view() == gather(views.take(i as int), f),
    {
        proof {
            lemma_gather_step(views, i as int, f);
        }
        let ghost before = r.deep_view();
        if changes[i].safety == ContractSafety::Breaking {
            put(&mut r, changes[i].deep_clone());
        }
        assert(r.deep_view() =~= before + f(views[i as int]));
    }
    r
}

} // verus!
