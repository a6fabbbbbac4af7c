//! Warehouse-side data diff.
//!
//! Diffing is model-aware: it reuses declared keys, compares candidate and
//! base relations with warehouse-side SQL, and returns structured summaries.
//! The SQL is written here and executed elsewhere; the answers come back as
//! rows.

use vstd::prelude::*;

use crate::adapter::{ColumnInfo, ColumnInfoView};
use crate::contracts::{claims_of, collect_claims, is_ambiguous};
use crate::error::{AdapterError, AdapterErrorView, EngineError, EngineErrorView};
use crate::names::{has_name, named, with_name, NameMap};
use crate::order::{
    lemma_text_order, lemma_the_listing, list_items, listed, order_texts, text_order, the_listing,
};
use crate::seqs::{
    first_where, gather, lemma_first_ends, lemma_first_step, lemma_gather_ends, lemma_gather_step,
};
use crate::text::{
    cat2, cat3, cat4, cat5, cat6, cat7, chars_of, decimal_text, decimal_usize, join, join_text,
    none_of, one_of, put, put_all, same, signed_decimal, signed_text, DeepClone,
};
use crate::util::{fresh_id, is_uuid_text};
use crate::workspace::{
    numeric_rank, parsed_type, quote, quoted, relation_text, type_text,
    ColumnTolerance, ColumnToleranceView, DataType, DataTypeView, DiffPolicy, DiffPolicyView,
    Relation, RelationView, SchemaChangeSafety,
};

verus! {

/// How a diff compares data.
#[derive(Clone, Debug, PartialEq, Eq)]
pub enum DiffStrategy {
    Keyed,
    Aggregate,
    Full,
    Sampled,
    /// Compare at partition granularity.
    Partition { columns: Vec<String> },
}

/// The contents of a [`DiffStrategy`].
pub enum DiffStrategyView {
    Keyed,
    Aggregate,
    Full,
    Sampled,
    Partition { columns: Seq<Seq<char>> },
}

impl DeepView for DiffStrategy {
    type V = DiffStrategyView;

    open spec fn deep_view(&self) -> DiffStrategyView {
        match self {
            DiffStrategy::Keyed => DiffStrategyView::Keyed,
            DiffStrategy::Aggregate => DiffStrategyView::Aggregate,
            DiffStrategy::Full => DiffStrategyView::Full,
            DiffStrategy::Sampled => DiffStrategyView::Sampled,
            DiffStrategy::Partition { columns } => DiffStrategyView::Partition {
                columns: columns.deep_view(),
            },
        }
    }
}

impl DeepClone for DiffStrategy {
    fn deep_clone(&self) -> (copy: Self) {
        match self {
            DiffStrategy::Keyed => DiffStrategy::Keyed,
            DiffStrategy::Aggregate => DiffStrategy::Aggregate,
            DiffStrategy::Full => DiffStrategy::Full,
            DiffStrategy::Sampled => DiffStrategy::Sampled,
            DiffStrategy::Partition { columns } => DiffStrategy::Partition {
                columns: columns.deep_clone(),
            },
        }
    }
}

/// A single policy evaluation result.
#[derive(Clone, Debug, PartialEq, Eq)]
pub struct PolicyResult {
    pub policy: String,
    pub passed: bool,
    pub detail: String,
}

/// The contents of a [`PolicyResult`].
pub struct PolicyResultView {
    pub policy: Seq<char>,
    pub passed: bool,
    pub detail: Seq<char>,
}

impl DeepView for PolicyResult {
    type V = PolicyResultView;

    open spec fn deep_view(&self) -> PolicyResultView {
        PolicyResultView {
            policy: self.policy@,
            passed: self.passed,
            detail: self.detail@,
        }
    }
}

impl DeepClone for PolicyResult {
    fn deep_clone(&self) -> (copy: Self) {
        PolicyResult {
            policy: self.policy.deep_clone(),
            passed: self.passed,
            detail: self.detail.deep_clone(),
        }
    }
}

/// A request to diff two relations.
#[derive(Clone, Debug, PartialEq, Eq)]
pub struct DiffRequest {
    pub model: String,
    pub candidate_relation: Relation,
    pub base_relation: Relation,
    pub candidate_ref: Option<String>,
    pub base_ref: Option<String>,
    pub candidate_version: Option<String>,
    pub base_version: Option<String>,
    /// Stable key columns reused from key and incremental configuration.
    pub key_columns: Vec<String>,
    /// Columns to compare value-wise.
    pub columns: Vec<String>,
    pub strategy: DiffStrategy,
    pub policy: DiffPolicy,
    /// The percentage of rows to sample, as a SQL number.
    pub sample_percent: Option<String>,
    /// Declared column renames (candidate name, base name): turns a
    /// removed+added schema pair into a rename.
    pub renames: NameMap<String>,
}

/// The contents of a [`DiffRequest`].
pub struct DiffRequestView {
    pub model: Seq<char>,
    pub candidate_relation: RelationView,
    pub base_relation: RelationView,
    pub candidate_ref: Option<Seq<char>>,
    pub base_ref: Option<Seq<char>>,
    pub candidate_version: Option<Seq<char>>,
    pub base_version: Option<Seq<char>>,
    pub key_columns: Seq<Seq<char>>,
    pub columns: Seq<Seq<char>>,
    pub strategy: DiffStrategyView,
    pub policy: DiffPolicyView,
    pub sample_percent: Option<Seq<char>>,
    pub renames: Seq<(Seq<char>, Seq<char>)>,
}

impl DeepView for DiffRequest {
    type V = DiffRequestView;

    open spec fn deep_view(&self) -> DiffRequestView {
        DiffRequestView {
            model: self.model@,
            candidate_relation: self.candidate_relation.deep_view(),
            base_relation: self.base_relation.deep_view(),
            candidate_ref: self.candidate_ref.deep_view(),
            base_ref: self.base_ref.deep_view(),
            candidate_version: self.candidate_version.deep_view(),
            base_version: self.base_version.deep_view(),
            key_columns: self.key_columns.deep_view(),
            columns: self.columns.deep_view(),
            strategy: self.strategy.deep_view(),
            policy: self.policy.deep_view(),
            sample_percent: self.sample_percent.deep_view(),
            renames: self.renames.deep_view(),
        }
    }
}

impl DeepClone for DiffRequest {
    fn deep_clone(&self) -> (copy: Self) {
        DiffRequest {
            model: self.model.deep_clone(),
            candidate_relation: self.candidate_relation.deep_clone(),
            base_relation: self.base_relation.deep_clone(),
            candidate_ref: self.candidate_ref.deep_clone(),
            base_ref: self.base_ref.deep_clone(),
            candidate_version: self.candidate_version.deep_clone(),
            base_version: self.base_version.deep_clone(),
            key_columns: self.key_columns.deep_clone(),
            columns: self.columns.deep_clone(),
            strategy: self.strategy.deep_clone(),
            policy: self.policy.deep_clone(),
            sample_percent: self.sample_percent.deep_clone(),
            renames: self.renames.deep_clone(),
        }
    }
}

/// Row-level summary.
#[derive(Clone, Copy, Debug, PartialEq, Eq, Structural)]
pub struct RowSummary {
    pub base_rows: i64,
    pub candidate_rows: i64,
    pub delta: i64,
    pub added: i64,
    pub removed: i64,
    pub modified: i64,
    pub unchanged: i64,
}

impl DeepView for RowSummary {
    type V = RowSummary;

    open spec fn deep_view(&self) -> RowSummary {
        *self
    }
}

impl DeepClone for RowSummary {
    fn deep_clone(&self) -> (copy: Self) {
        *self
    }
}

impl Default for RowSummary {
    fn default() -> (summary: Self)
        ensures
            summary == no_rows(),
    {
        RowSummary {
            base_rows: 0,
            candidate_rows: 0,
            delta: 0,
            added: 0,
            removed: 0,
            modified: 0,
            unchanged: 0,
        }
    }
}

/// Nothing counted.
pub open spec fn no_rows() -> RowSummary {
    RowSummary {
        base_rows: 0,
        candidate_rows: 0,
        delta: 0,
        added: 0,
        removed: 0,
        modified: 0,
        unchanged: 0,
    }
}

/// A schema change included in the diff.
#[derive(Clone, Debug, PartialEq, Eq)]
pub struct SchemaChange {
    pub column: String,
    pub kind: String,
    pub detail: String,
    pub safety: String,
}

/// The contents of a [`SchemaChange`].
pub struct SchemaChangeView {
    pub column: Seq<char>,
    pub kind: Seq<char>,
    pub detail: Seq<char>,
    pub safety: Seq<char>,
}

impl DeepView for SchemaChange {
    type V = SchemaChangeView;

    open spec fn deep_view(&self) -> SchemaChangeView {
        SchemaChangeView {
            column: self.column@,
            kind: self.kind@,
            detail: self.detail@,
            safety: self.safety@,
        }
    }
}

impl DeepClone for SchemaChange {
    fn deep_clone(&self) -> (copy: Self) {
        SchemaChange {
            column: self.column.deep_clone(),
            kind: self.kind.deep_clone(),
            detail: self.detail.deep_clone(),
            safety: self.safety.deep_clone(),
        }
    }
}

/// A structured diff report.
#[derive(Clone, Debug, PartialEq, Eq)]
pub struct DiffReport {
    pub diff_id: String,
    pub model: String,
    pub candidate_ref: Option<String>,
    pub base_ref: Option<String>,
    pub candidate_version: Option<String>,
    pub base_version: Option<String>,
    pub candidate_relation: String,
    pub base_relation: String,
    pub strategy: DiffStrategy,
    pub coverage: String,
    pub key_columns: Vec<String>,
    pub row_summary: RowSummary,
    pub column_changes: NameMap<i64>,
    pub schema_changes: Vec<SchemaChange>,
    pub partitions_added: Vec<String>,
    pub partitions_removed: Vec<String>,
    pub partitions_changed: Vec<String>,
    pub policy_results: Vec<PolicyResult>,
    pub passed: bool,
    pub started_at: String,
    pub finished_at: String,
}

/// The contents of a [`DiffReport`].
pub struct DiffReportView {
    pub diff_id: Seq<char>,
    pub model: Seq<char>,
    pub candidate_ref: Option<Seq<char>>,
    pub base_ref: Option<Seq<char>>,
    pub candidate_version: Option<Seq<char>>,
    pub base_version: Option<Seq<char>>,
    pub candidate_relation: Seq<char>,
    pub base_relation: Seq<char>,
    pub strategy: DiffStrategyView,
    pub coverage: Seq<char>,
    pub key_columns: Seq<Seq<char>>,
    pub row_summary: RowSummary,
    pub column_changes: Seq<(Seq<char>, i64)>,
    pub schema_changes: Seq<SchemaChangeView>,
    pub partitions_added: Seq<Seq<char>>,
    pub partitions_removed: Seq<Seq<char>>,
    pub partitions_changed: Seq<Seq<char>>,
    pub policy_results: Seq<PolicyResultView>,
    pub passed: bool,
    pub started_at: Seq<char>,
    pub finished_at: Seq<char>,
}

impl DeepView for DiffReport {
    type V = DiffReportView;

    open spec fn deep_view(&self) -> DiffReportView {
        DiffReportView {
            diff_id: self.diff_id@,
            model: self.model@,
            candidate_ref: self.candidate_ref.deep_view(),
            base_ref: self.base_ref.deep_view(),
            candidate_version: self.candidate_version.deep_view(),
            base_version: self.base_version.deep_view(),
            candidate_relation: self.candidate_relation@,
            base_relation: self.base_relation@,
            strategy: self.strategy.deep_view(),
            coverage: self.coverage@,
            key_columns: self.key_columns.deep_view(),
            row_summary: self.row_summary,
            column_changes: self.column_changes.deep_view(),
            schema_changes: self.schema_changes.deep_view(),
            partitions_added: self.partitions_added.deep_view(),
            partitions_removed: self.partitions_removed.deep_view(),
            partitions_changed: self.partitions_changed.deep_view(),
            policy_results: self.policy_results.deep_view(),
            passed: self.passed,
            started_at: self.started_at@,
            finished_at: self.finished_at@,
        }
    }
}

impl DeepClone for DiffReport {
    fn deep_clone(&self) -> (copy: Self) {
        DiffReport {
            diff_id: self.diff_id.deep_clone(),
            model: self.model.deep_clone(),
            candidate_ref: self.candidate_ref.deep_clone(),
            base_ref: self.base_ref.deep_clone(),
            candidate_version: self.candidate_version.deep_clone(),
            base_version: self.base_version.deep_clone(),
            candidate_relation: self.candidate_relation.deep_clone(),
            base_relation: self.base_relation.deep_clone(),
            strategy: self.strategy.deep_clone(),
            coverage: self.coverage.deep_clone(),
            key_columns: self.key_columns.deep_clone(),
            row_summary: self.row_summary,
            column_changes: self.column_changes.deep_clone(),
            schema_changes: self.schema_changes.deep_clone(),
            partitions_added: self.partitions_added.deep_clone(),
            partitions_removed: self.partitions_removed.deep_clone(),
            partitions_changed: self.partitions_changed.deep_clone(),
            policy_results: self.policy_results.deep_clone(),
            passed: self.passed,
            started_at: self.started_at.deep_clone(),
            finished_at: self.finished_at.deep_clone(),
        }
    }
}

/// The SQL expression for a relation, a sample of it where one is asked for.
pub open spec fn sampled_sql(relation: RelationView, request: DiffRequestView) -> Seq<char> {
    match (request.strategy, request.sample_percent) {
        (DiffStrategyView::Sampled, Some(percent)) => crate::workspace::relation_sql(relation)
            + " TABLESAMPLE BERNOULLI ("@ + percent + ")"@,
        _ => crate::workspace::relation_sql(relation),
    }
}

/// The SQL expression for a relation, applying sampling when requested.
pub fn relation_sql(relation: &Relation, request: &DiffRequest) -> (r: String)
    ensures
        r@ == sampled_sql(relation.deep_view(), request.deep_view()),
{
    match (&request.strategy, &request.sample_percent) {
        (DiffStrategy::Sampled, Some(percent)) => cat4(
            relation.sql().as_str(),
            " TABLESAMPLE BERNOULLI (",
            percent.as_str(),
            ")",
        ),
        _ => relation.sql(),
    }
}

/// The query that counts the rows of a relation.
pub open spec fn count_sql(relation: Seq<char>) -> Seq<char> {
    "SELECT count(*) FROM "@ + relation
}

pub fn row_count_query(relation: &str) -> (r: String)
    ensures
        r@ == count_sql(relation@),
{
    cat2("SELECT count(*) FROM ", relation)
}

/// A column on the base side.
pub open spec fn base_column(column: Seq<char>) -> Seq<char> {
    "b."@ + quoted(column)
}

/// A column on the candidate side.
pub open spec fn candidate_column(column: Seq<char>) -> Seq<char> {
    "c."@ + quoted(column)
}

/// The distance of a column's two values.
pub open spec fn distance(column: Seq<char>) -> Seq<char> {
    "abs("@ + base_column(column) + " - "@ + candidate_column(column) + ")"@
}

/// The ways in which a column's two values count as equal under a tolerance.
pub open spec fn within_bounds(
    column: Seq<char>,
    tolerance: ColumnToleranceView,
) -> Seq<Seq<char>> {
    seq![base_column(column) + " = "@ + candidate_column(column)] + (match tolerance.absolute {
        Some(bound) => seq![distance(column) + " <= "@ + bound],
        None => Seq::empty(),
    }) + (match tolerance.relative {
        Some(bound) => seq![
            distance(column) + " <= "@ + bound + " * greatest(abs("@ + base_column(column)
                + "), abs("@ + (candidate_column(column) + "))"@),
        ],
        None => Seq::empty(),
    })
}

/// The condition under which a column counts as changed: any difference, or
/// under a tolerance one that no bound excuses. Null and non-null always
/// differ.
pub open spec fn changed_sql(
    column: Seq<char>,
    tolerance: Option<ColumnToleranceView>,
) -> Seq<char> {
    let b = base_column(column);
    let c = candidate_column(column);
    match tolerance {
        None => b + " IS DISTINCT FROM "@ + c,
        Some(bounds) => ("(("@ + b + " IS NULL) <> ("@ + c + " IS NULL)) OR ("@) + (b
            + " IS NOT NULL AND "@ + c + " IS NOT NULL AND NOT ("@ + join_text(
            within_bounds(column, bounds),
            " OR "@,
        ) + "))"@),
    }
}

/// The condition under which a column counts as changed.
pub fn change_predicate(column: &str, tolerance: Option<&ColumnTolerance>) -> (r: String)
    ensures
        r@ == changed_sql(column@, tolerance.deep_view()),
{
    let name: String = quote(column);
    let b: String = cat2("b.", name.as_str());
    let c: String = cat2("c.", name.as_str());
    match tolerance {
        None => cat3(b.as_str(), " IS DISTINCT FROM ", c.as_str()),
        Some(bounds) => {
            let difference: String = cat5("abs(", b.as_str(), " - ", c.as_str(), ")");
            let mut within: Vec<String> = one_of(cat3(b.as_str(), " = ", c.as_str()));
            if let Some(bound) = &bounds.absolute {
                put(&mut within, cat3(difference.as_str(), " <= ", bound.as_str()));
            }
            if let Some(bound) = &bounds.relative {
                let tail: String = cat2(c.as_str(), "))");
                put(
                    &mut within,
                    cat7(
                        difference.as_str(),
                        " <= ",
                        bound.as_str(),
                        " * greatest(abs(",
                        b.as_str(),
                        "), abs(",
                        tail.as_str(),
                    ),
                );
            }
            assert(within.deep_view() =~= within_bounds(column@, bounds.deep_view()));
            let list: &[String] = within.as_slice();
            assert(list.deep_view() =~= within.deep_view());
            let nulls: String = cat5("((", b.as_str(), " IS NULL) <> (", c.as_str(), " IS NULL)) OR (");
            let values: String = cat6(
                b.as_str(),
                " IS NOT NULL AND ",
                c.as_str(),
                " IS NOT NULL AND NOT (",
                join(list, " OR ").as_str(),
                "))",
            );
            cat2(nulls.as_str(), values.as_str())
        },
    }
}

/// The conditions of columns, by their tolerances.
pub open spec fn changed_sqls(
    columns: Seq<Seq<char>>,
    tolerances: Seq<(Seq<char>, ColumnToleranceView)>,
) -> Seq<Seq<char>> {
    Seq::new(columns.len(), |i: int| changed_sql(columns[i], named(tolerances, columns[i])))
}

/// The null-safe comparisons of key columns.
pub open spec fn null_safe_joins(keys: Seq<Seq<char>>) -> Seq<Seq<char>> {
    Seq::new(
        keys.len(),
        |i: int| base_column(keys[i]) + " IS NOT DISTINCT FROM "@ + candidate_column(keys[i]),
    )
}

/// The plain comparisons of key columns.
pub open spec fn plain_joins(keys: Seq<Seq<char>>) -> Seq<Seq<char>> {
    Seq::new(keys.len(), |i: int| base_column(keys[i]) + " = "@ + candidate_column(keys[i]))
}

/// The query that counts added, removed, modified and unchanged rows by key.
pub open spec fn keyed_sql(
    request: DiffRequestView,
    base: Seq<char>,
    candidate: Seq<char>,
) -> Seq<char> {
    let conditions = changed_sqls(request.columns, request.policy.tolerances);
    let changed = if conditions.len() == 0 {
        "false"@
    } else {
        join_text(conditions, " OR "@)
    };
    let b = base_column(request.key_columns[0]);
    let c = candidate_column(request.key_columns[0]);
    let both = "count(*) FILTER (WHERE "@ + b + " IS NOT NULL AND "@ + c + " IS NOT NULL AND "@;
    ("SELECT count(*) FILTER (WHERE "@ + b + " IS NULL) AS added, "@) + ("count(*) FILTER (WHERE "@
        + c + " IS NULL) AS removed, "@) + (both + "("@ + changed + ")) AS modified, "@) + (both
        + "NOT ("@ + changed + ")) AS unchanged FROM ("@) + (candidate + ") c FULL OUTER JOIN ("@
        + base + ") b ON "@ + join_text(null_safe_joins(request.key_columns), " AND "@))
}

fn conditions_of(columns: &Vec<String>, tolerances: &NameMap<ColumnTolerance>) -> (r: Vec<String>)
    ensures
        r.deep_view() == changed_sqls(columns.deep_view(), tolerances.deep_view()),
{
    let mut r: Vec<String> = Vec::new();
    for i in 0..columns.len()
        invariant
            r@.len() == i,
            forall|k: int|
                0 <= k < i ==> (#[trigger] r@[k])@ == changed_sql(
                    columns@[k]@,
                    named(tolerances.deep_view(), columns@[k]@),
                ),
    {
        r.push(change_predicate(columns[i].as_str(), tolerances.get(columns[i].as_str())));
    }
    assert(r.deep_view() =~= changed_sqls(columns.deep_view(), tolerances.deep_view()));
    r
}

fn null_safe(keys: &Vec<String>) -> (r: Vec<String>)
    ensures
        r.deep_view() == null_safe_joins(keys.deep_view()),
{
    let mut r: Vec<String> = Vec::new();
    for i in 0..keys.len()
        invariant
            r@.len() == i,
            forall|k: int|
                0 <= k < i ==> (#[trigger] r@[k])@ == base_column(keys@[k]@)
                    + " IS NOT DISTINCT FROM "@ + candidate_column(keys@[k]@),
    {
        let name: String = quote(keys[i].as_str());
        let b: String = cat2("b.", name.as_str());
        let c: String = cat2("c.", name.as_str());
        r.push(cat3(b.as_str(), " IS NOT DISTINCT FROM ", c.as_str()));
    }
    assert(r.deep_view() =~= null_safe_joins(keys.deep_view()));
    r
}

fn plain_keys(keys: &Vec<String>) -> (r: Vec<String>)
    ensures
        r.deep_view() == plain_joins(keys.deep_view()),
{
    let mut r: Vec<String> = Vec::new();
    for i in 0..keys.len()
        invariant
            r@.len() == i,
            forall|k: int|
                0 <= k < i ==> (#[trigger] r@[k])@ == base_column(keys@[k]@) + " = "@
                    + candidate_column(keys@[k]@),
    {
        let name: String = quote(keys[i].as_str());
        let b: String = cat2("b.", name.as_str());
        let c: String = cat2("c.", name.as_str());
        r.push(cat3(b.as_str(), " = ", c.as_str()));
    }
    assert(r.deep_view() =~= plain_joins(keys.deep_view()));
    r
}

/// The query that counts added, removed, modified and unchanged rows by key.
pub fn keyed_counts_query(request: &DiffRequest, base: &str, candidate: &str) -> (r: String)
    requires
        request.key_columns@.len() > 0,
    ensures
        r@ == keyed_sql(request.deep_view(), base@, candidate@),
{
    let conditions: Vec<String> = conditions_of(&request.columns, &request.policy.tolerances);
    assert(conditions.deep_view().len() == conditions@.len());
    let changed: String = if conditions.len() == 0 {
        "false".to_owned()
    } else {
        let list: &[String] = conditions.as_slice();
        assert(list.deep_view() =~= conditions.deep_view());
        join(list, " OR ")
    };
    assert(request.key_columns.deep_view()[0] == request.key_columns@[0]@);
    let name: String = quote(request.key_columns[0].as_str());
    let b: String = cat2("b.", name.as_str());
    let c: String = cat2("c.", name.as_str());
    let both: String = cat5(
        "count(*) FILTER (WHERE ",
        b.as_str(),
        " IS NOT NULL AND ",
        c.as_str(),
        " IS NOT NULL AND ",
    );
    let added: String = cat3("SELECT count(*) FILTER (WHERE ", b.as_str(), " IS NULL) AS added, ");
    let removed: String = cat3("count(*) FILTER (WHERE ", c.as_str(), " IS NULL) AS removed, ");
    let modified: String = cat4(both.as_str(), "(", changed.as_str(), ")) AS modified, ");
    let unchanged: String = cat4(both.as_str(), "NOT (", changed.as_str(), ")) AS unchanged FROM (");
    let joins: Vec<String> = null_safe(&request.key_columns);
    let list: &[String] = joins.as_slice();
    assert(list.deep_view() =~= joins.deep_view());
    let tail: String = cat5(
        candidate,
        ") c FULL OUTER JOIN (",
        base,
        ") b ON ",
        join(list, " AND ").as_str(),
    );
    cat5(added.as_str(), removed.as_str(), modified.as_str(), unchanged.as_str(), tail.as_str())
}

/// The query that counts the rows in which a column changed.
pub open spec fn column_sql(
    request: DiffRequestView,
    base: Seq<char>,
    candidate: Seq<char>,
    column: Seq<char>,
) -> Seq<char> {
    ("SELECT count(*) FROM ("@ + candidate + ") c JOIN ("@ + base + ") b ON "@) + (join_text(
        plain_joins(request.key_columns),
        " AND "@,
    ) + " WHERE "@ + changed_sql(column, named(request.policy.tolerances, column)))
}

pub fn column_changed_query(
    request: &DiffRequest,
    base: &str,
    candidate: &str,
    column: &str,
) -> (r: String)
    ensures
        r@ == column_sql(request.deep_view(), base@, candidate@, column@),
{
    let joins: Vec<String> = plain_keys(&request.key_columns);
    let list: &[String] = joins.as_slice();
    assert(list.deep_view() =~= joins.deep_view());
    let head: String = cat5("SELECT count(*) FROM (", candidate, ") c JOIN (", base, ") b ON ");
    let predicate: String = change_predicate(column, request.policy.tolerances.get(column));
    let tail: String = cat3(join(list, " AND ").as_str(), " WHERE ", predicate.as_str());
    cat2(head.as_str(), tail.as_str())
}

/// The expression that names a row's partition.
pub open spec fn partition_key(columns: Seq<Seq<char>>) -> Seq<char> {
    let casts = Seq::new(
        columns.len(),
        |i: int| "CAST("@ + quoted(columns[i]) + " AS varchar)"@,
    );
    if casts.len() == 1 {
        casts[0]
    } else {
        "concat_ws('|', "@ + join_text(casts, ", "@) + ")"@
    }
}

/// The query for the partitions of `from` that `other` does not have.
pub open spec fn partitions_only_in(
    key: Seq<char>,
    from: Seq<char>,
    other: Seq<char>,
) -> Seq<char> {
    ("SELECT "@ + key + " FROM ("@ + from) + (") EXCEPT SELECT "@ + key + " FROM ("@ + other
        + ") ORDER BY 1"@)
}

/// The query for the partitions whose row counts differ.
pub open spec fn partitions_changed_sql(
    key: Seq<char>,
    base: Seq<char>,
    candidate: Seq<char>,
) -> Seq<char> {
    ("SELECT c.__key FROM (SELECT "@ + key + " AS __key, count(*) AS n FROM ("@ + candidate
        + ") GROUP BY 1) c JOIN (SELECT "@) + (key + " AS __key, count(*) AS n FROM ("@ + base
        + ") GROUP BY 1) b ON c.__key = b.__key WHERE c.n <> b.n ORDER BY 1"@)
}

/// The queries that a partition comparison is made with.
#[derive(Clone, Debug, PartialEq, Eq)]
pub struct PartitionQueries {
    pub added: String,
    pub removed: String,
    pub changed: String,
}

/// The contents of a [`PartitionQueries`].
pub struct PartitionQueriesView {
    pub added: Seq<char>,
    pub removed: Seq<char>,
    pub changed: Seq<char>,
}

impl DeepView for PartitionQueries {
    type V = PartitionQueriesView;

    open spec fn deep_view(&self) -> PartitionQueriesView {
        PartitionQueriesView {
            added: self.added@,
            removed: self.removed@,
            changed: self.changed@,
        }
    }
}

impl DeepClone for PartitionQueries {
    fn deep_clone(&self) -> (copy: Self) {
        PartitionQueries {
            added: self.added.deep_clone(),
            removed: self.removed.deep_clone(),
            changed: self.changed.deep_clone(),
        }
    }
}

/// The queries that compare two relations by partitions.
pub open spec fn partition_sql(
    base: Seq<char>,
    candidate: Seq<char>,
    columns: Seq<Seq<char>>,
) -> PartitionQueriesView {
    PartitionQueriesView {
        added: partitions_only_in(partition_key(columns), candidate, base),
        removed: partitions_only_in(partition_key(columns), base, candidate),
        changed: partitions_changed_sql(partition_key(columns), base, candidate),
    }
}

pub fn partition_queries(base: &str, candidate: &str, columns: &Vec<String>) -> (r:
    PartitionQueries)
    ensures
        r.deep_view() == partition_sql(base@, candidate@, columns.deep_view()),
{
    let mut casts: Vec<String> = Vec::new();
    for i in 0..columns.len()
        invariant
            casts@.len() == i,
            forall|k: int|
                0 <= k < i ==> (#[trigger] casts@[k])@ == "CAST("@ + quoted(columns@[k]@)
                    + " AS varchar)"@,
    {
        casts.push(cat3("CAST(", quote(columns[i].as_str()).as_str(), " AS varchar)"));
    }
    let ghost names = columns.deep_view();
    assert(casts.deep_view() =~= Seq::new(
        names.len(),
        |i: int| "CAST("@ + quoted(names[i]) + " AS varchar)"@,
    ));
    let key: String = if casts.len() == 1 {
        assert(casts.deep_view()[0] == casts@[0]@);
        casts[0].clone()
    } else {
        let list: &[String] = casts.as_slice();
        assert(list.deep_view() =~= casts.deep_view());
        cat3("concat_ws('|', ", join(list, ", ").as_str(), ")")
    };
    let k: &str = key.as_str();
    let head: String = cat4("SELECT ", k, " FROM (", candidate);
    let tail: String = cat5(") EXCEPT SELECT ", k, " FROM (", base, ") ORDER BY 1");
    let added: String = cat2(head.as_str(), tail.as_str());
    let head: String = cat4("SELECT ", k, " FROM (", base);
    let tail: String = cat5(") EXCEPT SELECT ", k, " FROM (", candidate, ") ORDER BY 1");
    let removed: String = cat2(head.as_str(), tail.as_str());
    let head: String = cat5(
        "SELECT c.__key FROM (SELECT ",
        k,
        " AS __key, count(*) AS n FROM (",
        candidate,
        ") GROUP BY 1) c JOIN (SELECT ",
    );
    let tail: String = cat4(
        k,
        " AS __key, count(*) AS n FROM (",
        base,
        ") GROUP BY 1) b ON c.__key = b.__key WHERE c.n <> b.n ORDER BY 1",
    );
    let changed: String = cat2(head.as_str(), tail.as_str());
    PartitionQueries { added, removed, changed }
}

/// Keeps the first cell of a row that has one.
pub open spec fn first_cell() -> spec_fn(Seq<Seq<char>>) -> Seq<Seq<char>> {
    |row: Seq<Seq<char>>|
        if row.len() > 0 {
            seq![row[0]]
        } else {
            Seq::empty()
        }
}

/// The first column of a query's rows.
pub fn column_values(rows: &Vec<Vec<String>>) -> (r: Vec<String>)
    ensures
        r.deep_view() == gather(rows.deep_view(), first_cell()),
{
    let ghost views = rows.deep_view();
    let ghost f = first_cell();
    proof {
        lemma_gather_ends(views, f);
    }
    let mut r: Vec<String> = none_of();
    for i in 0..rows.len()
        invariant
            views == rows.deep_view(),
            f == first_cell(),
            r.deep_view() == gather(views.take(i as int), f),
    {
        proof {
            lemma_gather_step(views, i as int, f);
        }
        let ghost before = r.deep_view();
        assert(views[i as int] == rows@[i as int].deep_view());
        assert(views[i as int].len() == rows@[i as int]@.len());
        if rows[i].len() > 0 {
            assert(views[i as int][0] == rows@[i as int]@[0]@);
            put(&mut r, rows[i][0].clone());
        }
        assert(r.deep_view() =~= before + f(views[i as int]));
    }
    r
}

/// Counts by key; a key listed twice counts by its last entry.
pub open spec fn counts_by_key(entries: Seq<(Seq<char>, i64)>) -> Seq<(Seq<char>, i64)>
    decreases entries.len(),
{
    if entries.len() == 0 {
        Seq::empty()
    } else {
        with_name(counts_by_key(entries.drop_last()), entries.last().0, entries.last().1)
    }
}

/// Keeps a partition that the other side does not have.
pub open spec fn if_missing(other: Seq<(Seq<char>, i64)>) -> spec_fn((Seq<char>, i64)) -> Seq<
    Seq<char>,
> {
    |entry: (Seq<char>, i64)|
        if has_name(other, entry.0) {
            Seq::empty()
        } else {
            seq![entry.0]
        }
}

/// Keeps a partition whose count differs on the other side.
pub open spec fn if_recounted(other: Seq<(Seq<char>, i64)>) -> spec_fn((Seq<char>, i64)) -> Seq<
    Seq<char>,
> {
    |entry: (Seq<char>, i64)|
        match named(other, entry.0) {
            Some(count) => if count != entry.1 {
                seq![entry.0]
            } else {
                Seq::empty()
            },
            None => Seq::empty(),
        }
}

fn index_counts(entries: &Vec<(String, i64)>) -> (r: NameMap<i64>)
    ensures
        r.deep_view() == counts_by_key(entries.deep_view()),
{
    let mut r: NameMap<i64> = NameMap::new();
    let ghost views = entries.deep_view();
    assert(views.take(0) =~= Seq::<(Seq<char>, i64)>::empty());
    for i in 0..entries.len()
        invariant
            views == entries.deep_view(),
            r.deep_view() == counts_by_key(views.take(i as int)),
    {
        assert(views.take(i as int + 1).drop_last() =~= views.take(i as int));
        assert(views[i as int] == entries@[i as int].deep_view());
        r.insert(entries[i].0.clone(), entries[i].1);
    }
    assert(views.take(views.len() as int) =~= views);
    r
}

fn missing_keys(counts: &NameMap<i64>, other: &NameMap<i64>) -> (r: Vec<String>)
    ensures
        r.deep_view() == gather(counts.deep_view(), if_missing(other.deep_view())),
{
    let ghost views = counts.deep_view();
    let ghost f = if_missing(other.deep_view());
    proof {
        lemma_gather_ends(views, f);
    }
    let mut r: Vec<String> = none_of();
    let n: usize = counts.len();
    for i in 0..n
        invariant
            n == views.len(),
            views == counts.deep_view(),
            f == if_missing(other.deep_view()),
            r.deep_view() == gather(views.take(i as int), f),
    {
        proof {
            lemma_gather_step(views, i as int, f);
        }
        let ghost before = r.deep_view();
        let key: &String = counts.key_at(i);
        if !other.contains_key(key.as_str()) {
            put(&mut r, key.clone());
        }
        assert(r.deep_view() =~= before + f(views[i as int]));
    }
    r
}

fn recounted_keys(counts: &NameMap<i64>, other: &NameMap<i64>) -> (r: Vec<String>)
    ensures
        r.deep_view() == gather(counts.deep_view(), if_recounted(other.deep_view())),
{
    let ghost views = counts.deep_view();
    let ghost f = if_recounted(other.deep_view());
    proof {
        lemma_gather_ends(views, f);
    }
    let mut r: Vec<String> = none_of();
    let n: usize = counts.len();
    for i in 0..n
        invariant
            n == views.len(),
            views == counts.deep_view(),
            f == if_recounted(other.deep_view()),
            r.deep_view() == gather(views.take(i as int), f),
    {
        proof {
            lemma_gather_step(views, i as int, f);
        }
        let ghost before = r.deep_view();
        let key: &String = counts.key_at(i);
        let count: i64 = *counts.value_at(i);
        if let Some(there) = other.get(key.as_str()) {
            if *there != count {
                put(&mut r, key.clone());
            }
        }
        assert(r.deep_view() =~= before + f(views[i as int]));
    }
    r
}

/// The partitions added, removed and changed between two sides, by their row
/// counts, each list in name order.
#[derive(Clone, Debug, PartialEq, Eq)]
pub struct PartitionDelta {
    pub added: Vec<String>,
    pub removed: Vec<String>,
    pub changed: Vec<String>,
}

/// The contents of a [`PartitionDelta`].
pub struct PartitionDeltaView {
    pub added: Seq<Seq<char>>,
    pub removed: Seq<Seq<char>>,
    pub changed: Seq<Seq<char>>,
}

impl DeepView for PartitionDelta {
    type V = PartitionDeltaView;

    open spec fn deep_view(&self) -> PartitionDeltaView {
        PartitionDeltaView {
            added: self.added.deep_view(),
            removed: self.removed.deep_view(),
            changed: self.changed.deep_view(),
        }
    }
}

impl DeepClone for PartitionDelta {
    fn deep_clone(&self) -> (copy: Self) {
        PartitionDelta {
            added: self.added.deep_clone(),
            removed: self.removed.deep_clone(),
            changed: self.changed.deep_clone(),
        }
    }
}

/// What changed between two sides' row counts per partition.
pub open spec fn delta_of(
    base: Seq<(Seq<char>, i64)>,
    candidate: Seq<(Seq<char>, i64)>,
) -> PartitionDeltaView {
    let b = counts_by_key(base);
    let c = counts_by_key(candidate);
    PartitionDeltaView {
        added: gather(c, if_missing(b)),
        removed: gather(b, if_missing(c)),
        changed: gather(c, if_recounted(b)),
    }
}

pub fn partition_delta(base: &Vec<(String, i64)>, candidate: &Vec<(String, i64)>) -> (r:
    PartitionDelta)
    ensures
        r.deep_view() == delta_of(base.deep_view(), candidate.deep_view()),
{
    let b: NameMap<i64> = index_counts(base);
    let c: NameMap<i64> = index_counts(candidate);
    PartitionDelta {
        added: missing_keys(&c, &b),
        removed: missing_keys(&b, &c),
        changed: recounted_keys(&c, &b),
    }
}

/// The value of a decimal digit; negative for any other character.
pub open spec fn digit_value(c: char) -> int {
    if '0' <= c && c <= '9' {
        (c as int) - ('0' as int)
    } else {
        -1
    }
}

/// The number that decimal digits denote; nothing where there are none or
/// something else is among them.
pub open spec fn digits_value(s: Seq<char>) -> Option<nat>
    decreases s.len(),
{
    if s.len() == 0 {
        None
    } else if digit_value(s.last()) < 0 {
        None
    } else if s.len() == 1 {
        Some(digit_value(s.last()) as nat)
    } else {
        match digits_value(s.drop_last()) {
            Some(n) => Some((n * 10 + digit_value(s.last())) as nat),
            None => None,
        }
    }
}

/// The 64-bit integer that a text denotes: an optional sign and decimal
/// digits, within range.
pub open spec fn parsed_i64(s: Seq<char>) -> Option<i64> {
    let signed = s.len() > 0 && (s[0] == '-' || s[0] == '+');
    let negative = s.len() > 0 && s[0] == '-';
    match digits_value(
        if signed {
            s.drop_first()
        } else {
            s
        },
    ) {
        Some(n) => {
            let value = if negative {
                -(n as int)
            } else {
                n as int
            };
            if i64::MIN <= value <= i64::MAX {
                Some(value as i64)
            } else {
                None
            }
        },
        None => None,
    }
}

proof fn lemma_digits_bad(s: Seq<char>, k: int)
    requires
        0 <= k < s.len(),
        digit_value(s[k]) < 0,
    ensures
        digits_value(s) is None,
    decreases s.len(),
{
    if k < s.len() - 1 {
        lemma_digits_bad(s.drop_last(), k);
    }
}

proof fn lemma_digits_grow(s: Seq<char>, k: int)
    requires
        0 < k <= s.len(),
        digits_value(s) is Some,
    ensures
        digits_value(s.take(k)) is Some,
        digits_value(s.take(k))->0 <= digits_value(s)->0,
    decreases s.len(),
{
    if k < s.len() {
        lemma_digits_grow(s.drop_last(), k);
        assert(s.drop_last().take(k) =~= s.take(k));
    } else {
        assert(s.take(k) =~= s);
    }
}

/// Reads a 64-bit integer.
pub fn parse_i64(text: &str) -> (r: Option<i64>)
    ensures
        r == parsed_i64(text@),
{
    let chars: Vec<char> = chars_of(text);
    if chars.len() == 0 {
        return None;
    }
    let negative: bool = chars[0] == '-';
    let start: usize = if chars[0] == '-' || chars[0] == '+' {
        1
    } else {
        0
    };
    let ghost digits = if start == 1 {
        text@.drop_first()
    } else {
        text@
    };
    assert(digits =~= text@.skip(start as int));
    if start == chars.len() {
        assert(digits.len() == 0);
        return None;
    }
    let mut value: i128 = 0;
    let mut i: usize = start;
    while i < chars.len()
        invariant
            chars@ == text@,
            start <= i <= chars@.len(),
            start < chars@.len(),
            digits == text@.skip(start as int),
            start == 1 <==> (text@[0] == '-' || text@[0] == '+'),
            start <= 1,
            digits == if start == 1 {
                text@.drop_first()
            } else {
                text@
            },
            negative == (text@[0] == '-'),
            0 <= value <= 0x8000_0000_0000_0000,
            i > start ==> digits_value(digits.take(i - start)) == Some(value as nat),
            i == start ==> value == 0,
        decreases chars@.len() - i,
    {
        let c: char = chars[i];
        let ghost taken = digits.take(i - start + 1);
        assert(taken.drop_last() =~= digits.take(i - start));
        assert(taken.last() == c);
        if !('0' <= c && c <= '9') {
            proof {
                assert(digits[i - start] == c);
                lemma_digits_bad(digits, i - start);
            }
            return None;
        }
        let d: i128 = ((c as u32) - ('0' as u32)) as i128;
        let grown: i128 = value * 10 + d;
        assert(digits_value(taken) == Some(grown as nat));
        if grown > 0x8000_0000_0000_0000 {
            proof {
                if digits_value(digits) is Some {
                    lemma_digits_grow(digits, i - start + 1);
                }
            }
            return None;
        }
        value = grown;
        i = i + 1;
    }
    assert(digits.take(digits.len() as int) =~= digits);
    if negative {
        Some((0 - value) as i64)
    } else if value > 0x7fff_ffff_ffff_ffff {
        None
    } else {
        Some(value as i64)
    }
}

/// A complaint that a query's answer has the wrong form.
pub open spec fn malformed(message: Seq<char>) -> EngineErrorView {
    EngineErrorView::Adapter(
        AdapterErrorView { code: "MALFORMED_RESULT"@, message, retryable: false },
    )
}

fn malformed_error(message: &str) -> (r: EngineError)
    ensures
        r.deep_view() == malformed(message@),
{
    EngineError::Adapter(AdapterError::new("MALFORMED_RESULT", message))
}

/// The number in a cell, or the complaint that it is none.
pub open spec fn number_in(value: Seq<char>) -> Result<i64, EngineErrorView> {
    match parsed_i64(value) {
        Some(n) => Ok(n),
        None => Err(
            malformed("count query returned non-numeric value `"@ + value + "`"@),
        ),
    }
}

/// Whether `r` is the outcome `want`.
pub open spec fn comes_to(r: Result<i64, EngineError>, want: Result<i64, EngineErrorView>) -> bool {
    match want {
        Ok(n) => r matches Ok(m) && m == n,
        Err(error) => r matches Err(e) && e.deep_view() == error,
    }
}

fn read_number(value: &str) -> (r: Result<i64, EngineError>)
    ensures
        comes_to(r, number_in(value@)),
{
    match parse_i64(value) {
        Some(n) => Ok(n),
        None => Err(
            malformed_error(
                cat3("count query returned non-numeric value `", value, "`").as_str(),
            ),
        ),
    }
}

/// The number in the first cell of the first row.
pub open spec fn first_number(rows: Seq<Seq<Seq<char>>>) -> Result<i64, EngineErrorView> {
    if rows.len() == 0 || rows[0].len() == 0 {
        Err(malformed("count query returned no rows"@))
    } else {
        number_in(rows[0][0])
    }
}

/// Reads the number in the first cell of the first row.
pub fn first_cell_i64(rows: &Vec<Vec<String>>) -> (r: Result<i64, EngineError>)
    ensures
        comes_to(r, first_number(rows.deep_view())),
{
    assert(rows.deep_view().len() == rows@.len());
    if rows.len() == 0 {
        return Err(malformed_error("count query returned no rows"));
    }
    assert(rows.deep_view()[0] == rows@[0].deep_view());
    assert(rows@[0].deep_view().len() == rows@[0]@.len());
    if rows[0].len() == 0 {
        return Err(malformed_error("count query returned no rows"));
    }
    assert(rows.deep_view()[0][0] == rows@[0]@[0]@);
    read_number(rows[0][0].as_str())
}

/// The number in a cell of a row.
pub open spec fn number_at(row: Seq<Seq<char>>, index: int) -> Result<i64, EngineErrorView> {
    if index >= row.len() {
        Err(malformed("count query returned no column "@ + decimal_text(index as nat)))
    } else {
        number_in(row[index])
    }
}

/// Reads the number in a cell of a row.
pub fn cell(row: &Vec<String>, index: usize) -> (r: Result<i64, EngineError>)
    ensures
        comes_to(r, number_at(row.deep_view(), index as int)),
{
    assert(row.deep_view().len() == row@.len());
    if index >= row.len() {
        return Err(
            malformed_error(
                cat2("count query returned no column ", decimal_usize(index).as_str()).as_str(),
            ),
        );
    }
    assert(row.deep_view()[index as int] == row@[index as int]@);
    read_number(row[index].as_str())
}

/// A column's type and nullability, by name; a name listed twice speaks by its
/// last entry.
pub open spec fn column_types(columns: Seq<ColumnInfoView>) -> Seq<
    (Seq<char>, (DataTypeView, bool)),
>
    decreases columns.len(),
{
    if columns.len() == 0 {
        Seq::empty()
    } else {
        let column = columns.last();
        with_name(
            column_types(columns.drop_last()),
            column.name,
            (parsed_type(column.data_type), column.nullable),
        )
    }
}

fn types_of(columns: &Vec<ColumnInfo>) -> (r: NameMap<(DataType, bool)>)
    ensures
        r.deep_view() == column_types(columns.deep_view()),
{
    let mut r: NameMap<(DataType, bool)> = NameMap::new();
    let ghost views = columns.deep_view();
    assert(views.take(0) =~= Seq::<ColumnInfoView>::empty());
    for i in 0..columns.len()
        invariant
            views == columns.deep_view(),
            r.deep_view() == column_types(views.take(i as int)),
    {
        assert(views.take(i as int + 1).drop_last() =~= views.take(i as int));
        assert(views[i as int] == columns@[i as int].deep_view());
        let column: &ColumnInfo = &columns[i];
        r.insert(
            column.name.clone(),
            (DataType::parse_trino(column.data_type.as_str()), column.nullable),
        );
    }
    assert(views.take(views.len() as int) =~= views);
    r
}

/// The two sides of a column comparison and the renames declared between
/// them.
pub struct Comparison {
    pub candidate: Seq<(Seq<char>, (DataTypeView, bool))>,
    pub base: Seq<(Seq<char>, (DataTypeView, bool))>,
    pub renames: Seq<(Seq<char>, Seq<char>)>,
}

/// A schema change, from its parts.
pub open spec fn schema_entry(
    column: Seq<char>,
    kind: Seq<char>,
    detail: Seq<char>,
    safety: Seq<char>,
) -> SchemaChangeView {
    SchemaChangeView { column, kind, detail, safety }
}

fn make_entry(column: &str, kind: &str, detail: String, safety: &str) -> (r: SchemaChange)
    ensures
        r.deep_view() == schema_entry(column@, kind@, detail@, safety@),
{
    SchemaChange {
        column: column.to_owned(),
        kind: kind.to_owned(),
        detail,
        safety: safety.to_owned(),
    }
}

impl Comparison {
    /// Whether the declaration that `old` became `new` explains anything:
    /// nobody else claims `old`, `new` exists on the candidate side only, and
    /// `old` on the base side.
    pub open spec fn resolves(self, new: Seq<char>, old: Seq<char>) -> bool {
        &&& !is_ambiguous(self.renames, old)
        &&& has_name(self.candidate, new)
        &&& !has_name(self.base, new)
        &&& has_name(self.base, old)
    }

    /// Picks the resolved rename of an old name.
    pub open spec fn renames_old(self, old: Seq<char>) -> spec_fn((Seq<char>, Seq<char>)) -> bool {
        |rename: (Seq<char>, Seq<char>)| rename.1 == old && self.resolves(rename.0, old)
    }

    /// Reports an old name that more than one new column claims.
    pub open spec fn ambiguity(self) -> spec_fn((Seq<char>, Seq<Seq<char>>)) -> Seq<
        SchemaChangeView,
    > {
        |claim: (Seq<char>, Seq<Seq<char>>)|
            if claim.1.len() > 1 && has_name(self.base, claim.0) {
                seq![
                    schema_entry(
                        claim.0,
                        "rename_ambiguous"@,
                        "declared renames for `"@ + claim.0 + "` are ambiguous: "@ + join_text(
                            claim.1,
                            ", "@,
                        ),
                        "review"@,
                    ),
                ]
            } else {
                Seq::empty()
            }
    }

    /// What became of a base column: renamed, removed, or changed in type,
    /// nullability or both.
    pub open spec fn fate(self) -> spec_fn((Seq<char>, (DataTypeView, bool))) -> Seq<
        SchemaChangeView,
    > {
        |entry: (Seq<char>, (DataTypeView, bool))|
            {
                let name = entry.0;
                let (base_type, base_nullable) = entry.1;
                match named(self.candidate, name) {
                    None => match first_where(self.renames, self.renames_old(name)) {
                        Some(rename) => {
                            let new_type = (named(self.candidate, rename.0)->0).0;
                            let note = if new_type != base_type {
                                " (type "@ + type_text(base_type) + " -> "@ + type_text(new_type)
                                    + ")"@
                            } else {
                                Seq::empty()
                            };
                            seq![
                                schema_entry(
                                    rename.0,
                                    "renamed"@,
                                    "`"@ + name + "` renamed to `"@ + rename.0 + "`"@ + note,
                                    "full_rebuild_required"@,
                                ),
                            ]
                        },
                        None => seq![
                            schema_entry(
                                name,
                                "removed"@,
                                type_text(base_type) + " removed"@,
                                "full_rebuild_required"@,
                            ),
                        ],
                    },
                    Some(now) => (if now.0 != base_type {
                        seq![
                            schema_entry(
                                name,
                                "changed"@,
                                type_text(base_type) + " -> "@ + type_text(now.0),
                                if numeric_rank(now.0) >= 0 && numeric_rank(base_type) >= 0 {
                                    "review"@
                                } else {
                                    "error"@
                                },
                            ),
                        ]
                    } else {
                        Seq::empty()
                    }) + (if now.1 != base_nullable {
                        seq![
                            if now.1 {
                                schema_entry(
                                    name,
                                    "nullability"@,
                                    "not null -> nullable"@,
                                    "error"@,
                                )
                            } else {
                                schema_entry(
                                    name,
                                    "nullability"@,
                                    "nullable -> not null"@,
                                    "review"@,
                                )
                            },
                        ]
                    } else {
                        Seq::empty()
                    }),
                }
            }
    }

    /// Whether a candidate column is the new name of a resolved rename.
    pub open spec fn is_new_name(self, name: Seq<char>) -> bool {
        match named(self.renames, name) {
            Some(old) => self.resolves(name, old),
            None => false,
        }
    }

    /// Reports a candidate column that is genuinely new.
    pub open spec fn addition(self) -> spec_fn((Seq<char>, (DataTypeView, bool))) -> Seq<
        SchemaChangeView,
    > {
        |entry: (Seq<char>, (DataTypeView, bool))|
            if !has_name(self.base, entry.0) && !self.is_new_name(entry.0) {
                seq![
                    schema_entry(
                        entry.0,
                        "added"@,
                        type_text((entry.1).0) + " added"@,
                        "safe"@,
                    ),
                ]
            } else {
                Seq::empty()
            }
    }

    /// Every change, in the order in which it is found.
    pub open spec fn changes(self) -> Seq<SchemaChangeView> {
        gather(claims_of(self.renames), self.ambiguity()) + gather(self.base, self.fate())
            + gather(self.candidate, self.addition())
    }
}

/// The columns of changes.
pub open spec fn change_columns(changes: Seq<SchemaChangeView>) -> Seq<Seq<char>> {
    Seq::new(changes.len(), |i: int| changes[i].column)
}

/// Changes in the order of their columns, those of one column in the order in
/// which they were found.
pub open spec fn by_column(changes: Seq<SchemaChangeView>) -> Seq<SchemaChangeView> {
    listed(changes, the_listing(changes.len(), text_order(change_columns(changes))))
}

/// The column-level comparison of two column lists.
pub open spec fn column_changes(
    candidate: Seq<ColumnInfoView>,
    base: Seq<ColumnInfoView>,
    renames: Seq<(Seq<char>, Seq<char>)>,
) -> Seq<SchemaChangeView> {
    by_column(
        (Comparison {
            candidate: column_types(candidate),
            base: column_types(base),
            renames,
        }).changes(),
    )
}

struct Sides<'a> {
    candidate: NameMap<(DataType, bool)>,
    base: NameMap<(DataType, bool)>,
    renames: &'a NameMap<String>,
    claims: NameMap<Vec<String>>,
}

impl Sides<'_> {
    spec fn spec(self) -> Comparison {
        Comparison {
            candidate: self.candidate.deep_view(),
            base: self.base.deep_view(),
            renames: self.renames.deep_view(),
        }
    }

    spec fn ok(self) -> bool {
        self.claims.deep_view() == claims_of(self.renames.deep_view())
    }

    fn resolves(&self, new: &str, old: &str) -> (r: bool)
        requires
            self.ok(),
        ensures
            r == self.spec().resolves(new@, old@),
    {
        let ambiguous: bool = match self.claims.get(old) {
            Some(news) => {
                assert(news@.len() == news.deep_view().len());
                news.len() > 1
            },
            None => false,
        };
        !ambiguous && self.candidate.contains_key(new) && !self.base.contains_key(new)
            && self.base.contains_key(old)
    }

    fn new_name_of(&self, old: &str) -> (r: Option<&String>)
        requires
            self.ok(),
        ensures
            match first_where(self.spec().renames, self.spec().renames_old(old@)) {
                Some(rename) => r matches Some(new) && new@ == rename.0 && has_name(
                    self.spec().candidate,
                    rename.0,
                ),
                None => r is None,
            },
    {
        let ghost views = self.renames.deep_view();
        let ghost p = self.spec().renames_old(old@);
        proof {
            lemma_first_ends(views, p);
        }
        let n: usize = self.renames.len();
        for i in 0..n
            invariant
                self.ok(),
                n == views.len(),
                views == self.renames.deep_view(),
                p == self.spec().renames_old(old@),
                first_where(views, p) == first_where(views.skip(i as int), p),
        {
            proof {
                lemma_first_step(views, i as int, p);
            }
            if same(self.renames.value_at(i).as_str(), old) && self.resolves(
                self.renames.key_at(i).as_str(),
                old,
            ) {
                return Some(self.renames.key_at(i));
            }
        }
        proof {
            lemma_first_ends(views, p);
        }
        None
    }

    fn ambiguities(&self) -> (r: Vec<SchemaChange>)
        requires
            self.ok(),
        ensures
            r.deep_view() == gather(claims_of(self.spec().renames), self.spec().ambiguity()),
    {
        let claims: &NameMap<Vec<String>> = &self.claims;
        let ghost views = claims.deep_view();
        let ghost f = self.spec().ambiguity();
        proof {
            lemma_gather_ends(views, f);
        }
        let mut r: Vec<SchemaChange> = none_of();
        let n: usize = claims.len();
        for i in 0..n
            invariant
                n == views.len(),
                views == claims.deep_view(),
                f == self.spec().ambiguity(),
                r.deep_view() == gather(views.take(i as int), f),
        {
            proof {
                lemma_gather_step(views, i as int, f);
            }
            let ghost before = r.deep_view();
            let old: &String = claims.key_at(i);
            let news: &Vec<String> = claims.value_at(i);
            assert(news@.len() == news.deep_view().len());
            if news.len() > 1 && self.base.contains_key(old.as_str()) {
                let list: &[String] = news.as_slice();
                assert(list.deep_view() =~= news.deep_view());
                let detail: String = cat4(
                    "declared renames for `",
                    old.as_str(),
                    "` are ambiguous: ",
                    join(list, ", ").as_str(),
                );
                put(&mut r, make_entry(old.as_str(), "rename_ambiguous", detail, "review"));
            }
            assert(r.deep_view() =~= before + f(views[i as int]));
        }
        r
    }

    fn fate_of(&self, name: &String, base_type: &DataType, base_nullable: bool) -> (r: Vec<
        SchemaChange,
    >)
        requires
            self.ok(),
        ensures
            r.deep_view() == self.spec().fate()((name@, (base_type.deep_view(), base_nullable))),
    {
        let ghost want = self.spec().fate()((name@, (base_type.deep_view(), base_nullable)));
        match self.candidate.get(name.as_str()) {
            None => match self.new_name_of(name.as_str()) {
                Some(new_name) => {
                    let note: String = match self.candidate.get(new_name.as_str()) {
                        Some(found) => if !found.0.same_as(base_type) {
                            cat5(
                                " (type ",
                                base_type.name().as_str(),
                                " -> ",
                                found.0.name().as_str(),
                                ")",
                            )
                        } else {
                            let none: String = String::new();
                            assert(none@ =~= Seq::<char>::empty());
                            none
                        },
                        None => String::new(),
                    };
                    let detail: String = cat6(
                        "`",
                        name.as_str(),
                        "` renamed to `",
                        new_name.as_str(),
                        "`",
                        note.as_str(),
                    );
                    one_of(
                        make_entry(
                            new_name.as_str(),
                            "renamed",
                            detail,
                            "full_rebuild_required",
                        ),
                    )
                },
                None => one_of(
                    make_entry(
                        name.as_str(),
                        "removed",
                        cat2(base_type.name().as_str(), " removed"),
                        "full_rebuild_required",
                    ),
                ),
            },
            Some(now) => {
                let mut r: Vec<SchemaChange> = none_of();
                if !now.0.same_as(base_type) {
                    let safety: &str = if now.0.is_numeric() && base_type.is_numeric() {
                        "review"
                    } else {
                        "error"
                    };
                    let detail: String = cat3(
                        base_type.name().as_str(),
                        " -> ",
                        now.0.name().as_str(),
                    );
                    put(&mut r, make_entry(name.as_str(), "changed", detail, safety));
                }
                if now.1 != base_nullable {
                    if now.1 {
                        put(
                            &mut r,
                            make_entry(
                                name.as_str(),
                                "nullability",
                                "not null -> nullable".to_owned(),
                                "error",
                            ),
                        );
                    } else {
                        put(
                            &mut r,
                            make_entry(
                                name.as_str(),
                                "nullability",
                                "nullable -> not null".to_owned(),
                                "review",
                            ),
                        );
                    }
                }
                assert(r.deep_view() =~= want);
                r
            },
        }
    }

    fn fates(&self) -> (r: Vec<SchemaChange>)
        requires
            self.ok(),
        ensures
            r.deep_view() == gather(self.spec().base, self.spec().fate()),
    {
        let base: &NameMap<(DataType, bool)> = &self.base;
        let ghost views = base.deep_view();
        let ghost f = self.spec().fate();
        proof {
            lemma_gather_ends(views, f);
        }
        let mut r: Vec<SchemaChange> = none_of();
        let n: usize = base.len();
        for i in 0..n
            invariant
                n == views.len(),
                views == base.deep_view(),
                f == self.spec().fate(),
                self.ok(),
                r.deep_view() == gather(views.take(i as int), f),
        {
            proof {
                lemma_gather_step(views, i as int, f);
            }
            let ghost before = r.deep_view();
            let entry: &(DataType, bool) = base.value_at(i);
            put_all(&mut r, self.fate_of(base.key_at(i), &entry.0, entry.1));
            assert(r.deep_view() =~= before + f(views[i as int]));
        }
        r
    }

    fn additions(&self) -> (r: Vec<SchemaChange>)
        requires
            self.ok(),
        ensures
            r.deep_view() == gather(self.spec().candidate, self.spec().addition()),
    {
        let candidate: &NameMap<(DataType, bool)> = &self.candidate;
        let ghost views = candidate.deep_view();
        let ghost f = self.spec().addition();
        proof {
            lemma_gather_ends(views, f);
        }
        let mut r: Vec<SchemaChange> = none_of();
        let n: usize = candidate.len();
        for i in 0..n
            invariant
                n == views.len(),
                views == candidate.deep_view(),
                f == self.spec().addition(),
                self.ok(),
                r.deep_view() == gather(views.take(i as int), f),
        {
            proof {
                lemma_gather_step(views, i as int, f);
            }
            let ghost before = r.deep_view();
            let name: &String = candidate.key_at(i);
            let renamed: bool = match self.renames.get(name.as_str()) {
                Some(old) => self.resolves(name.as_str(), old.as_str()),
                None => false,
            };
            if !self.base.contains_key(name.as_str()) && !renamed {
                let detail: String = cat2(candidate.value_at(i).0.name().as_str(), " added");
                put(&mut r, make_entry(name.as_str(), "added", detail, "safe"));
            }
            assert(r.deep_view() =~= before + f(views[i as int]));
        }
        r
    }
}

fn sort_changes(changes: &Vec<SchemaChange>) -> (r: Vec<SchemaChange>)
    ensures
        r.deep_view() == by_column(changes.deep_view()),
{
    let mut columns: Vec<String> = Vec::new();
    for i in 0..changes.len()
        invariant
            columns@.len() == i,
            forall|k: int| 0 <= k < i ==> (#[trigger] columns@[k])@ == changes@[k].column@,
    {
        columns.push(changes[i].column.clone());
    }
    assert(columns.deep_view() =~= change_columns(changes.deep_view()));
    let listing: Vec<usize> = order_texts(&columns);
    proof {
        lemma_text_order(columns.deep_view());
        lemma_the_listing(listing@, columns@.len(), text_order(columns.deep_view()));
    }
    list_items(changes, &listing)
}

/// Column-level comparison of two column lists, usable when only one side
/// exists (an empty list stands for the absent side). `renames` maps a
/// candidate column name to the base column it was renamed from.
pub fn compare_column_lists(
    candidate_columns: &Vec<ColumnInfo>,
    base_columns: &Vec<ColumnInfo>,
    renames: &NameMap<String>,
) -> (r: Vec<SchemaChange>)
    ensures
        r.deep_view() == if candidate_columns@.len() == 0 && base_columns@.len() == 0 {
            Seq::empty()
        } else {
            column_changes(
                candidate_columns.deep_view(),
                base_columns.deep_view(),
                renames.deep_view(),
            )
        },
{
    if candidate_columns.len() == 0 && base_columns.len() == 0 {
        return none_of();
    }
    let sides = Sides {
        candidate: types_of(candidate_columns),
        base: types_of(base_columns),
        renames,
        claims: collect_claims(renames),
    };
    let mut changes: Vec<SchemaChange> = sides.ambiguities();
    put_all(&mut changes, sides.fates());
    put_all(&mut changes, sides.additions());
    sort_changes(&changes)
}

/// The columns of two relations compared; nothing where either side's columns
/// could not be read.
pub open spec fn columns_compared(
    candidate: Option<Seq<ColumnInfoView>>,
    base: Option<Seq<ColumnInfoView>>,
    renames: Seq<(Seq<char>, Seq<char>)>,
) -> Seq<SchemaChangeView> {
    match (candidate, base) {
        (Some(c), Some(b)) => if c.len() == 0 && b.len() == 0 {
            Seq::empty()
        } else {
            column_changes(c, b, renames)
        },
        _ => Seq::empty(),
    }
}

/// Column-level comparison of two relations whose columns were read, if they
/// were.
pub fn compare_columns(
    candidate: &Option<Vec<ColumnInfo>>,
    base: &Option<Vec<ColumnInfo>>,
    renames: &NameMap<String>,
) -> (r: Vec<SchemaChange>)
    ensures
        r.deep_view() == columns_compared(
            candidate.deep_view(),
            base.deep_view(),
            renames.deep_view(),
        ),
{
    match (candidate, base) {
        (Some(c), Some(b)) => {
            assert(c.deep_view().len() == c@.len());
            assert(b.deep_view().len() == b@.len());
            compare_column_lists(c, b, renames)
        },
        _ => none_of(),
    }
}

/// What the changed fraction of a diff's rows came to: whether it is within
/// the policy's bound, and the fraction as text.
#[derive(Clone, Debug, PartialEq, Eq)]
pub struct FractionReading {
    pub within: bool,
    pub text: String,
}

/// The contents of a [`FractionReading`].
pub struct FractionReadingView {
    pub within: bool,
    pub text: Seq<char>,
}

impl DeepView for FractionReading {
    type V = FractionReadingView;

    open spec fn deep_view(&self) -> FractionReadingView {
        FractionReadingView {
            within: self.within,
            text: self.text@,
        }
    }
}

impl DeepClone for FractionReading {
    fn deep_clone(&self) -> (copy: Self) {
        FractionReading {
            within: self.within,
            text: self.text.deep_clone(),
        }
    }
}

/// Whether added, removed and modified rows were counted at all: only the
/// keyed path measures them.
pub open spec fn rows_measured(request: DiffRequestView) -> bool {
    request.key_columns.len() > 0 && !(request.strategy is Partition)
}

/// The verdict on a row threshold. A threshold that was never measured fails
/// rather than pass on a vacuous zero.
pub open spec fn row_verdict(
    name: Seq<char>,
    metric: Seq<char>,
    value: i64,
    max: Option<i64>,
    measured: bool,
) -> Seq<PolicyResultView> {
    match max {
        Some(bound) => seq![
            PolicyResultView {
                policy: name,
                passed: measured && value <= bound,
                detail: if measured {
                    metric + " "@ + signed_text(value as int) + " (max "@ + signed_text(
                        bound as int,
                    ) + ")"@
                } else {
                    metric + " cannot be measured without keyed row counts"@
                },
            },
        ],
        None => Seq::empty(),
    }
}

/// Every verdict that a policy asks for.
pub open spec fn policy_verdicts(
    policy: DiffPolicyView,
    request: DiffRequestView,
    summary: RowSummary,
    fraction: FractionReadingView,
) -> Seq<PolicyResultView> {
    let measured = rows_measured(request);
    row_verdict("max_added_rows"@, "added"@, summary.added, policy.max_added_rows, measured)
        + row_verdict(
        "max_removed_rows"@,
        "removed"@,
        summary.removed,
        policy.max_removed_rows,
        measured,
    ) + row_verdict(
        "max_modified_rows"@,
        "modified"@,
        summary.modified,
        policy.max_modified_rows,
        measured,
    ) + (match policy.max_changed_fraction {
        Some(bound) => seq![
            PolicyResultView {
                policy: "max_changed_fraction"@,
                passed: measured && fraction.within,
                detail: if measured {
                    "changed fraction "@ + fraction.text + " (max "@ + bound + ")"@
                } else {
                    "changed fraction cannot be measured without keyed row counts"@
                },
            },
        ],
        None => Seq::empty(),
    }) + (if policy.require_keyed_diff {
        seq![
            PolicyResultView {
                policy: "require_keyed_diff"@,
                passed: measured,
                detail: "a stable key is required for keyed diffing"@,
            },
        ]
    } else {
        Seq::empty()
    }) + (if policy.require_full_diff {
        seq![
            PolicyResultView {
                policy: "require_full_diff"@,
                passed: request.key_columns.len() > 0 && (request.strategy is Keyed
                    || request.strategy is Full),
                detail: "full/keyed coverage is required"@,
            },
        ]
    } else {
        Seq::empty()
    })
}

fn judge_rows(
    name: &str,
    metric: &str,
    value: i64,
    max: Option<i64>,
    measured: bool,
) -> (r: Vec<PolicyResult>)
    ensures
        r.deep_view() == row_verdict(name@, metric@, value, max, measured),
{
    match max {
        Some(bound) => one_of(
            PolicyResult {
                policy: name.to_owned(),
                passed: measured && value <= bound,
                detail: if measured {
                    cat6(
                        metric,
                        " ",
                        signed_decimal(value).as_str(),
                        " (max ",
                        signed_decimal(bound).as_str(),
                        ")",
                    )
                } else {
                    cat2(metric, " cannot be measured without keyed row counts")
                },
            },
        ),
        None => none_of(),
    }
}

/// Evaluates a policy over what was counted.
pub fn evaluate_policy(
    policy: &DiffPolicy,
    request: &DiffRequest,
    summary: &RowSummary,
    fraction: &FractionReading,
) -> (r: Vec<PolicyResult>)
    ensures
        r.deep_view() == policy_verdicts(
            policy.deep_view(),
            request.deep_view(),
            *summary,
            fraction.deep_view(),
        ),
{
    assert(request.key_columns.deep_view().len() == request.key_columns@.len());
    let keyed: bool = request.key_columns.len() > 0;
    let partitioned: bool = matches!(&request.strategy, DiffStrategy::Partition { .. });
    let measured: bool = keyed && !partitioned;
    let mut r: Vec<PolicyResult> = judge_rows(
        "max_added_rows",
        "added",
        summary.added,
        policy.max_added_rows,
        measured,
    );
    put_all(
        &mut r,
        judge_rows(
            "max_removed_rows",
            "removed",
            summary.removed,
            policy.max_removed_rows,
            measured,
        ),
    );
    put_all(
        &mut r,
        judge_rows(
            "max_modified_rows",
            "modified",
            summary.modified,
            policy.max_modified_rows,
            measured,
        ),
    );
    let by_fraction: Vec<PolicyResult> = match &policy.max_changed_fraction {
        Some(bound) => one_of(
            PolicyResult {
                policy: "max_changed_fraction".to_owned(),
                passed: measured && fraction.within,
                detail: if measured {
                    cat5(
                        "changed fraction ",
                        fraction.text.as_str(),
                        " (max ",
                        bound.as_str(),
                        ")",
                    )
                } else {
                    "changed fraction cannot be measured without keyed row counts".to_owned()
                },
            },
        ),
        None => none_of(),
    };
    put_all(&mut r, by_fraction);
    let by_key: Vec<PolicyResult> = if policy.require_keyed_diff {
        one_of(
            PolicyResult {
                policy: "require_keyed_diff".to_owned(),
                passed: measured,
                detail: "a stable key is required for keyed diffing".to_owned(),
            },
        )
    } else {
        none_of()
    };
    put_all(&mut r, by_key);
    let by_coverage: Vec<PolicyResult> = if policy.require_full_diff {
        one_of(
            PolicyResult {
                policy: "require_full_diff".to_owned(),
                passed: keyed && matches!(
                    &request.strategy,
                    DiffStrategy::Keyed | DiffStrategy::Full
                ),
                detail: "full/keyed coverage is required".to_owned(),
            },
        )
    } else {
        none_of()
    };
    put_all(&mut r, by_coverage);
    r
}

/// What a query came back with: its rows, or the adapter's failure.
#[derive(Clone, Debug, PartialEq, Eq)]
pub enum Answer {
    Rows(Vec<Vec<String>>),
    Failed(AdapterError),
}

/// The contents of a [`Answer`].
pub enum AnswerView {
    Rows(Seq<Seq<Seq<char>>>),
    Failed(AdapterErrorView),
}

impl DeepView for Answer {
    type V = AnswerView;

    open spec fn deep_view(&self) -> AnswerView {
        match self {
            Answer::Rows(value) => AnswerView::Rows(value.deep_view()),
            Answer::Failed(value) => AnswerView::Failed(value.deep_view()),
        }
    }
}

impl DeepClone for Answer {
    fn deep_clone(&self) -> (copy: Self) {
        match self {
            Answer::Rows(value) => Answer::Rows(value.deep_clone()),
            Answer::Failed(value) => Answer::Failed(value.deep_clone()),
        }
    }
}

/// The rows of an answer.
pub open spec fn rows_of(answer: AnswerView) -> Result<Seq<Seq<Seq<char>>>, EngineErrorView> {
    match answer {
        AnswerView::Rows(rows) => Ok(rows),
        AnswerView::Failed(error) => Err(EngineErrorView::Adapter(error)),
    }
}

/// The number in the first cell of an answer.
pub open spec fn number_of(answer: AnswerView) -> Result<i64, EngineErrorView> {
    match rows_of(answer) {
        Ok(rows) => first_number(rows),
        Err(error) => Err(error),
    }
}

fn read_answer(answer: &Answer) -> (r: Result<i64, EngineError>)
    ensures
        comes_to(r, number_of(answer.deep_view())),
{
    match answer {
        Answer::Rows(rows) => first_cell_i64(rows),
        Answer::Failed(error) => Err(EngineError::Adapter(error.deep_clone())),
    }
}

/// What a diff's data comparison asks the warehouse.
#[derive(Clone, Debug, PartialEq, Eq)]
pub enum DataPlan {
    /// Per-partition record counts by these columns, from metadata where both
    /// sides have it, else by query.
    Partitions { columns: Vec<String>, queries: PartitionQueries },
    /// The keyed count query, and one query per compared column.
    Keyed { counts: String, columns: Vec<String> },
    /// Row counts are all there is to compare.
    Counts,
}

/// The contents of a [`DataPlan`].
pub enum DataPlanView {
    Partitions { columns: Seq<Seq<char>>, queries: PartitionQueriesView },
    Keyed { counts: Seq<char>, columns: Seq<Seq<char>> },
    Counts,
}

impl DeepView for DataPlan {
    type V = DataPlanView;

    open spec fn deep_view(&self) -> DataPlanView {
        match self {
            DataPlan::Partitions { columns, queries } => DataPlanView::Partitions { columns: columns.deep_view(), queries: queries.deep_view() },
            DataPlan::Keyed { counts, columns } => DataPlanView::Keyed { counts: counts@, columns: columns.deep_view() },
            DataPlan::Counts => DataPlanView::Counts,
        }
    }
}

impl DeepClone for DataPlan {
    fn deep_clone(&self) -> (copy: Self) {
        match self {
            DataPlan::Partitions { columns, queries } => DataPlan::Partitions { columns: columns.deep_clone(), queries: queries.deep_clone() },
            DataPlan::Keyed { counts, columns } => DataPlan::Keyed { counts: counts.deep_clone(), columns: columns.deep_clone() },
            DataPlan::Counts => DataPlan::Counts,
        }
    }
}

/// What a request's data comparison asks: partitions where that is its strategy,
/// else keyed counts where it has keys.
pub open spec fn data_plan(
    request: DiffRequestView,
    base: Seq<char>,
    candidate: Seq<char>,
) -> DataPlanView {
    match request.strategy {
        DiffStrategyView::Partition { columns } => DataPlanView::Partitions {
            columns,
            queries: partition_sql(base, candidate, columns),
        },
        _ => if request.key_columns.len() > 0 {
            DataPlanView::Keyed {
                counts: keyed_sql(request, base, candidate),
                columns: Seq::new(
                    request.columns.len(),
                    |i: int| column_sql(request, base, candidate, request.columns[i]),
                ),
            }
        } else {
            DataPlanView::Counts
        },
    }
}

/// Plan the data comparison of two relations, given in SQL.
pub fn plan_data(request: &DiffRequest, base: &str, candidate: &str) -> (r: DataPlan)
    ensures
        r.deep_view() == data_plan(request.deep_view(), base@, candidate@),
{
    if let DiffStrategy::Partition { columns } = &request.strategy {
        return DataPlan::Partitions {
            columns: columns.deep_clone(),
            queries: partition_queries(base, candidate, columns),
        };
    }
    assert(request.key_columns.deep_view().len() == request.key_columns@.len());
    if request.key_columns.len() == 0 {
        return DataPlan::Counts;
    }
    let counts: String = keyed_counts_query(request, base, candidate);
    let mut columns: Vec<String> = Vec::new();
    for i in 0..request.columns.len()
        invariant
            columns@.len() == i,
            forall|k: int|
                0 <= k < i ==> (#[trigger] columns@[k])@ == column_sql(
                    request.deep_view(),
                    base@,
                    candidate@,
                    request.columns@[k]@,
                ),
    {
        columns.push(column_changed_query(request, base, candidate, request.columns[i].as_str()));
    }
    let ghost view = request.deep_view();
    assert(columns.deep_view() =~= Seq::new(
        view.columns.len(),
        |i: int| column_sql(view, base@, candidate@, view.columns[i]),
    ));
    DataPlan::Keyed { counts, columns }
}

/// Whether an answer is of the shape that a plan asks for.
pub open spec fn answers(plan: DataPlanView, data: DataAnswerView) -> bool {
    match (plan, data) {
        (DataPlanView::Partitions { .. }, DataAnswerView::Metadata { .. }) => true,
        (DataPlanView::Partitions { .. }, DataAnswerView::Partitions { .. }) => true,
        (
            DataPlanView::Keyed { columns: queries, .. },
            DataAnswerView::Keyed { columns, .. },
        ) => columns.len() == queries.len(),
        (DataPlanView::Counts, DataAnswerView::Counts) => true,
        _ => false,
    }
}

/// An answer to what was planned for a request fits the request, and only such an
/// answer does.
pub proof fn law_planned_answers_fit(
    request: DiffRequestView,
    base: Seq<char>,
    candidate: Seq<char>,
    data: DataAnswerView,
)
    ensures
        fits(request, data) <==> answers(data_plan(request, base, candidate), data),
{
}

/// How a diff's data comparison was answered.
#[derive(Clone, Debug, PartialEq, Eq)]
pub enum DataAnswer {
    /// Per-partition record counts from metadata, base side then candidate
    /// side.
    Metadata { base: Vec<(String, i64)>, candidate: Vec<(String, i64)> },
    /// The answers to the partition queries.
    Partitions { added: Answer, removed: Answer, changed: Answer },
    /// The answer to the keyed count query, and one per compared column.
    Keyed { counts: Answer, columns: Vec<Answer> },
    /// Row counts were all there was to compare.
    Counts,
}

/// The contents of a [`DataAnswer`].
pub enum DataAnswerView {
    Metadata { base: Seq<(Seq<char>, i64)>, candidate: Seq<(Seq<char>, i64)> },
    Partitions { added: AnswerView, removed: AnswerView, changed: AnswerView },
    Keyed { counts: AnswerView, columns: Seq<AnswerView> },
    Counts,
}

impl DeepView for DataAnswer {
    type V = DataAnswerView;

    open spec fn deep_view(&self) -> DataAnswerView {
        match self {
            DataAnswer::Metadata { base, candidate } => DataAnswerView::Metadata {
                base: base.deep_view(),
                candidate: candidate.deep_view(),
            },
            DataAnswer::Partitions { added, removed, changed } => DataAnswerView::Partitions {
                added: added.deep_view(),
                removed: removed.deep_view(),
                changed: changed.deep_view(),
            },
            DataAnswer::Keyed { counts, columns } => DataAnswerView::Keyed {
                counts: counts.deep_view(),
                columns: columns.deep_view(),
            },
            DataAnswer::Counts => DataAnswerView::Counts,
        }
    }
}

impl DeepClone for DataAnswer {
    fn deep_clone(&self) -> (copy: Self) {
        match self {
            DataAnswer::Metadata { base, candidate } => DataAnswer::Metadata {
                base: base.deep_clone(),
                candidate: candidate.deep_clone(),
            },
            DataAnswer::Partitions { added, removed, changed } => DataAnswer::Partitions {
                added: added.deep_clone(),
                removed: removed.deep_clone(),
                changed: changed.deep_clone(),
            },
            DataAnswer::Keyed { counts, columns } => DataAnswer::Keyed {
                counts: counts.deep_clone(),
                columns: columns.deep_clone(),
            },
            DataAnswer::Counts => DataAnswer::Counts,
        }
    }
}

/// What a diff measured.
#[derive(Clone, Debug, PartialEq, Eq)]
pub struct Measured {
    pub summary: RowSummary,
    pub column_changes: NameMap<i64>,
    pub partitions: PartitionDelta,
    pub coverage: String,
}

/// The contents of a [`Measured`].
pub struct MeasuredView {
    pub summary: RowSummary,
    pub column_changes: Seq<(Seq<char>, i64)>,
    pub partitions: PartitionDeltaView,
    pub coverage: Seq<char>,
}

impl DeepView for Measured {
    type V = MeasuredView;

    open spec fn deep_view(&self) -> MeasuredView {
        MeasuredView {
            summary: self.summary,
            column_changes: self.column_changes.deep_view(),
            partitions: self.partitions.deep_view(),
            coverage: self.coverage@,
        }
    }
}

impl DeepClone for Measured {
    fn deep_clone(&self) -> (copy: Self) {
        Measured {
            summary: self.summary,
            column_changes: self.column_changes.deep_clone(),
            partitions: self.partitions.deep_clone(),
            coverage: self.coverage.deep_clone(),
        }
    }
}

/// No partition changed.
pub open spec fn no_partitions() -> PartitionDeltaView {
    PartitionDeltaView { added: Seq::empty(), removed: Seq::empty(), changed: Seq::empty() }
}

/// How a partition comparison is described.
pub open spec fn partition_coverage(source: Seq<char>, changed: nat) -> Seq<char> {
    "partition-aware ("@ + source + ", "@ + decimal_text(changed) + " partitions changed)"@
}

/// The columns that changed, with how many rows each changed in; only columns
/// that changed at all are kept. The first answer that is no number fails the
/// whole.
pub open spec fn column_counts(
    columns: Seq<Seq<char>>,
    answers: Seq<AnswerView>,
) -> Result<Seq<(Seq<char>, i64)>, EngineErrorView>
    decreases columns.len(),
{
    if columns.len() == 0 {
        Ok(Seq::empty())
    } else {
        match column_counts(columns.drop_last(), answers) {
            Err(error) => Err(error),
            Ok(before) => match number_of(answers[columns.len() - 1]) {
                Err(error) => Err(error),
                Ok(n) => if n > 0 {
                    Ok(with_name(before, columns.last(), n))
                } else {
                    Ok(before)
                },
            },
        }
    }
}

/// The four counts of a keyed comparison.
pub open spec fn keyed_numbers(rows: Seq<Seq<Seq<char>>>) -> Result<
    (i64, i64, i64, i64),
    EngineErrorView,
> {
    if rows.len() == 0 {
        Err(malformed("count query returned no rows"@))
    } else {
        match (
            number_at(rows[0], 0),
            number_at(rows[0], 1),
            number_at(rows[0], 2),
            number_at(rows[0], 3),
        ) {
            (Ok(a), Ok(b), Ok(c), Ok(d)) => Ok((a, b, c, d)),
            (Err(error), _, _, _) => Err(error),
            (_, Err(error), _, _) => Err(error),
            (_, _, Err(error), _) => Err(error),
            (_, _, _, Err(error)) => Err(error),
        }
    }
}

/// How a keyed comparison is described.
pub open spec fn keyed_coverage(strategy: DiffStrategyView) -> Seq<char> {
    match strategy {
        DiffStrategyView::Sampled => "sampled keyed"@,
        DiffStrategyView::Full => "full keyed"@,
        _ => "keyed"@,
    }
}

/// The answer fits the request: partitions answer a partition strategy, and
/// keyed counts a request with keys, with one answer per column.
pub open spec fn fits(request: DiffRequestView, data: DataAnswerView) -> bool {
    match data {
        DataAnswerView::Metadata { .. } => request.strategy is Partition,
        DataAnswerView::Partitions { .. } => request.strategy is Partition,
        DataAnswerView::Keyed { columns, .. } => !(request.strategy is Partition)
            && request.key_columns.len() > 0 && columns.len() == request.columns.len(),
        DataAnswerView::Counts => !(request.strategy is Partition) && request.key_columns.len()
            == 0,
    }
}

/// The difference of two row counts, within 64 bits.
pub open spec fn row_delta(candidate: i64, base: i64) -> i64 {
    let d = candidate - base;
    if d > i64::MAX {
        (d - 0x1_0000_0000_0000_0000) as i64
    } else if d < i64::MIN {
        (d + 0x1_0000_0000_0000_0000) as i64
    } else {
        d as i64
    }
}

/// What a diff measured, from its answers; the first answer that failed or has
/// the wrong form fails the whole.
pub open spec fn measurement(
    request: DiffRequestView,
    base_count: AnswerView,
    candidate_count: AnswerView,
    data: DataAnswerView,
) -> Result<MeasuredView, EngineErrorView> {
    match (number_of(base_count), number_of(candidate_count)) {
        (Err(error), _) => Err(error),
        (_, Err(error)) => Err(error),
        (Ok(base_rows), Ok(candidate_rows)) => {
            let summary = RowSummary {
                base_rows,
                candidate_rows,
                delta: row_delta(candidate_rows, base_rows),
                ..no_rows()
            };
            match data {
                DataAnswerView::Metadata { base, candidate } => {
                    let delta = delta_of(base, candidate);
                    Ok(
                        MeasuredView {
                            summary,
                            column_changes: Seq::empty(),
                            partitions: delta,
                            coverage: partition_coverage(
                                "partition metadata"@,
                                delta.changed.len(),
                            ),
                        },
                    )
                },
                DataAnswerView::Partitions { added, removed, changed } => match (
                    rows_of(added),
                    rows_of(removed),
                    rows_of(changed),
                ) {
                    (Ok(a), Ok(r), Ok(c)) => Ok(
                        MeasuredView {
                            summary,
                            column_changes: Seq::empty(),
                            partitions: PartitionDeltaView {
                                added: gather(a, first_cell()),
                                removed: gather(r, first_cell()),
                                changed: gather(c, first_cell()),
                            },
                            coverage: partition_coverage(
                                "partition row counts"@,
                                gather(c, first_cell()).len(),
                            ),
                        },
                    ),
                    (Err(error), _, _) => Err(error),
                    (_, Err(error), _) => Err(error),
                    (_, _, Err(error)) => Err(error),
                },
                DataAnswerView::Counts => Ok(
                    MeasuredView {
                        summary,
                        column_changes: Seq::empty(),
                        partitions: no_partitions(),
                        coverage: if request.strategy is Sampled {
                            "sampled aggregate (row counts only)"@
                        } else {
                            "aggregate (row counts only)"@
                        },
                    },
                ),
                DataAnswerView::Keyed { counts, columns } => match rows_of(counts) {
                    Err(error) => Err(error),
                    Ok(rows) => match keyed_numbers(rows) {
                        Err(error) => Err(error),
                        Ok((added, removed, modified, unchanged)) => match column_counts(
                            request.columns,
                            columns,
                        ) {
                            Err(error) => Err(error),
                            Ok(changes) => Ok(
                                MeasuredView {
                                    summary: RowSummary {
                                        added,
                                        removed,
                                        modified,
                                        unchanged,
                                        ..summary
                                    },
                                    column_changes: changes,
                                    partitions: no_partitions(),
                                    coverage: keyed_coverage(request.strategy),
                                },
                            ),
                        },
                    },
                },
            }
        },
    }
}

fn count_columns(columns: &Vec<String>, answers: &Vec<Answer>) -> (r: Result<
    NameMap<i64>,
    EngineError,
>)
    requires
        answers@.len() == columns@.len(),
    ensures
        match column_counts(columns.deep_view(), answers.deep_view()) {
            Ok(counts) => r matches Ok(map) && map.deep_view() == counts,
            Err(error) => r matches Err(e) && e.deep_view() == error,
        },
{
    let ghost views = columns.deep_view();
    let ghost given = answers.deep_view();
    let mut counts: NameMap<i64> = NameMap::new();
    assert(views.take(0) =~= Seq::<Seq<char>>::empty());
    for i in 0..columns.len()
        invariant
            answers@.len() == columns@.len(),
            views == columns.deep_view(),
            given == answers.deep_view(),
            column_counts(views.take(i as int), given) == Ok::<
                Seq<(Seq<char>, i64)>,
                EngineErrorView,
            >(counts.deep_view()),
    {
        assert(views.take(i as int + 1).drop_last() =~= views.take(i as int));
        assert(given[i as int] == answers@[i as int].deep_view());
        match read_answer(&answers[i]) {
            Ok(n) => {
                if n > 0 {
                    counts.insert(columns[i].clone(), n);
                }
            },
            Err(error) => {
                proof {
                    lemma_counts_fail(views, given, i as int + 1);
                }
                return Err(error);
            },
        }
    }
    assert(views.take(views.len() as int) =~= views);
    Ok(counts)
}

proof fn lemma_counts_fail(columns: Seq<Seq<char>>, answers: Seq<AnswerView>, i: int)
    requires
        0 <= i <= columns.len(),
        column_counts(columns.take(i), answers) is Err,
    ensures
        column_counts(columns, answers) == column_counts(columns.take(i), answers),
    decreases columns.len() - i,
{
    if i < columns.len() {
        assert(columns.take(i + 1).drop_last() =~= columns.take(i));
        lemma_counts_fail(columns, answers, i + 1);
    } else {
        assert(columns.take(i) =~= columns);
    }
}

/// Reads the four counts of a keyed comparison.
pub fn keyed_counts(rows: &Vec<Vec<String>>) -> (r: Result<(i64, i64, i64, i64), EngineError>)
    ensures
        match keyed_numbers(rows.deep_view()) {
            Ok(counts) => r matches Ok(c) && c == counts,
            Err(error) => r matches Err(e) && e.deep_view() == error,
        },
{
    assert(rows.deep_view().len() == rows@.len());
    if rows.len() == 0 {
        return Err(malformed_error("count query returned no rows"));
    }
    assert(rows.deep_view()[0] == rows@[0].deep_view());
    let row: &Vec<String> = &rows[0];
    let added: i64 = match cell(row, 0) {
        Ok(n) => n,
        Err(error) => {
            return Err(error);
        },
    };
    let removed: i64 = match cell(row, 1) {
        Ok(n) => n,
        Err(error) => {
            return Err(error);
        },
    };
    let modified: i64 = match cell(row, 2) {
        Ok(n) => n,
        Err(error) => {
            return Err(error);
        },
    };
    match cell(row, 3) {
        Ok(unchanged) => Ok((added, removed, modified, unchanged)),
        Err(error) => Err(error),
    }
}

fn answer_rows(answer: &Answer) -> (r: Result<Vec<Vec<String>>, EngineError>)
    ensures
        match rows_of(answer.deep_view()) {
            Ok(rows) => r matches Ok(v) && v.deep_view() == rows,
            Err(error) => r matches Err(e) && e.deep_view() == error,
        },
{
    match answer {
        Answer::Rows(rows) => Ok(rows.deep_clone()),
        Answer::Failed(error) => Err(EngineError::Adapter(error.deep_clone())),
    }
}

fn render_coverage(source: &str, changed: usize) -> (r: String)
    ensures
        r@ == partition_coverage(source@, changed as nat),
{
    cat5("partition-aware (", source, ", ", decimal_usize(changed).as_str(), " partitions changed)")
}

/// Subtracts two row counts.
pub fn subtract(candidate: i64, base: i64) -> (r: i64)
    ensures
        r == row_delta(candidate, base),
{
    let d: i128 = (candidate as i128) - (base as i128);
    if d > 0x7fff_ffff_ffff_ffff {
        (d - 0x1_0000_0000_0000_0000) as i64
    } else if d < -0x8000_0000_0000_0000 {
        (d + 0x1_0000_0000_0000_0000) as i64
    } else {
        d as i64
    }
}

/// What a diff measured, from the answers to its queries.
pub fn measure(
    request: &DiffRequest,
    base_count: &Answer,
    candidate_count: &Answer,
    data: &DataAnswer,
) -> (r: Result<Measured, EngineError>)
    requires
        fits(request.deep_view(), data.deep_view()),
    ensures
        match measurement(
            request.deep_view(),
            base_count.deep_view(),
            candidate_count.deep_view(),
            data.deep_view(),
        ) {
            Ok(measured) => r matches Ok(m) && m.deep_view() == measured,
            Err(error) => r matches Err(e) && e.deep_view() == error,
        },
{
    let base_rows: i64 = match read_answer(base_count) {
        Ok(n) => n,
        Err(error) => {
            return Err(error);
        },
    };
    let candidate_rows: i64 = match read_answer(candidate_count) {
        Ok(n) => n,
        Err(error) => {
            return Err(error);
        },
    };
    let summary: RowSummary = RowSummary {
        base_rows,
        candidate_rows,
        delta: subtract(candidate_rows, base_rows),
        added: 0,
        removed: 0,
        modified: 0,
        unchanged: 0,
    };
    match data {
        DataAnswer::Metadata { base, candidate } => {
            let partitions: PartitionDelta = partition_delta(base, candidate);
            assert(partitions.changed.deep_view().len() == partitions.changed@.len());
            let coverage: String = render_coverage(
                "partition metadata",
                partitions.changed.len(),
            );
            Ok(Measured { summary, column_changes: NameMap::new(), partitions, coverage })
        },
        DataAnswer::Partitions { added, removed, changed } => {
            let a: Vec<Vec<String>> = match answer_rows(added) {
                Ok(rows) => rows,
                Err(error) => {
                    return Err(error);
                },
            };
            let b: Vec<Vec<String>> = match answer_rows(removed) {
                Ok(rows) => rows,
                Err(error) => {
                    return Err(error);
                },
            };
            let c: Vec<Vec<String>> = match answer_rows(changed) {
                Ok(rows) => rows,
                Err(error) => {
                    return Err(error);
                },
            };
            let partitions: PartitionDelta = PartitionDelta {
                added: column_values(&a),
                removed: column_values(&b),
                changed: column_values(&c),
            };
            assert(partitions.changed.deep_view().len() == partitions.changed@.len());
            let coverage: String = render_coverage(
                "partition row counts",
                partitions.changed.len(),
            );
            Ok(Measured { summary, column_changes: NameMap::new(), partitions, coverage })
        },
        DataAnswer::Counts => {
            let coverage: String = match &request.strategy {
                DiffStrategy::Sampled => "sampled aggregate (row counts only)".to_owned(),
                _ => "aggregate (row counts only)".to_owned(),
            };
            let partitions: PartitionDelta = PartitionDelta {
                added: none_of(),
                removed: none_of(),
                changed: none_of(),
            };
            Ok(Measured { summary, column_changes: NameMap::new(), partitions, coverage })
        },
        DataAnswer::Keyed { counts, columns } => {
            let rows: Vec<Vec<String>> = match answer_rows(counts) {
                Ok(rows) => rows,
                Err(error) => {
                    return Err(error);
                },
            };
            let (added, removed, modified, unchanged) = match keyed_counts(&rows) {
                Ok(found) => found,
                Err(error) => {
                    return Err(error);
                },
            };
            assert(columns.deep_view().len() == columns@.len());
            assert(request.columns.deep_view().len() == request.columns@.len());
            let column_changes: NameMap<i64> = match count_columns(&request.columns, columns) {
                Ok(map) => map,
                Err(error) => {
                    return Err(error);
                },
            };
            let coverage: String = match &request.strategy {
                DiffStrategy::Sampled => "sampled keyed".to_owned(),
                DiffStrategy::Full => "full keyed".to_owned(),
                _ => "keyed".to_owned(),
            };
            let partitions: PartitionDelta = PartitionDelta {
                added: none_of(),
                removed: none_of(),
                changed: none_of(),
            };
            Ok(
                Measured {
                    summary: RowSummary { added, removed, modified, unchanged, ..summary },
                    column_changes,
                    partitions,
                    coverage,
                },
            )
        },
    }
}

/// Whether every verdict passed.
pub open spec fn all_passed(results: Seq<PolicyResultView>) -> bool {
    forall|i: int| 0 <= i < results.len() ==> (#[trigger] results[i]).passed
}

fn every_passed(results: &Vec<PolicyResult>) -> (r: bool)
    ensures
        r == all_passed(results.deep_view()),
{
    let ghost views = results.deep_view();
    for i in 0..results.len()
        invariant
            views == results.deep_view(),
            forall|k: int| 0 <= k < i ==> (#[trigger] views[k]).passed,
    {
        assert(views[i as int] == results@[i as int].deep_view());
        if !results[i].passed {
            return false;
        }
    }
    true
}

/// The report of a diff.
pub open spec fn report_of(
    id: Seq<char>,
    request: DiffRequestView,
    measured: MeasuredView,
    schema_changes: Seq<SchemaChangeView>,
    fraction: FractionReadingView,
    started_at: Seq<char>,
    finished_at: Seq<char>,
) -> DiffReportView {
    let verdicts = policy_verdicts(request.policy, request, measured.summary, fraction);
    DiffReportView {
        diff_id: id,
        model: request.model,
        candidate_ref: request.candidate_ref,
        base_ref: request.base_ref,
        candidate_version: request.candidate_version,
        base_version: request.base_version,
        candidate_relation: relation_text(request.candidate_relation),
        base_relation: relation_text(request.base_relation),
        strategy: request.strategy,
        coverage: measured.coverage,
        key_columns: request.key_columns,
        row_summary: measured.summary,
        column_changes: measured.column_changes,
        schema_changes,
        partitions_added: measured.partitions.added,
        partitions_removed: measured.partitions.removed,
        partitions_changed: measured.partitions.changed,
        policy_results: verdicts,
        passed: all_passed(verdicts),
        started_at,
        finished_at,
    }
}

/// The report of a diff, from what it measured and the columns of both sides
/// as far as they could be read.
pub fn diff(
    request: &DiffRequest,
    measured: Measured,
    candidate_columns: &Option<Vec<ColumnInfo>>,
    base_columns: &Option<Vec<ColumnInfo>>,
    fraction: &FractionReading,
    started_at: &str,
    finished_at: &str,
) -> (r: DiffReport)
    ensures
        is_uuid_text(r.diff_id@),
        r.deep_view() == report_of(
            r.diff_id@,
            request.deep_view(),
            measured.deep_view(),
            columns_compared(
                candidate_columns.deep_view(),
                base_columns.deep_view(),
                request.deep_view().renames,
            ),
            fraction.deep_view(),
            started_at@,
            finished_at@,
        ),
{
    let schema_changes: Vec<SchemaChange> = compare_columns(
        candidate_columns,
        base_columns,
        &request.renames,
    );
    let policy_results: Vec<PolicyResult> = evaluate_policy(
        &request.policy,
        request,
        &measured.summary,
        fraction,
    );
    let passed: bool = every_passed(&policy_results);
    DiffReport {
        diff_id: fresh_id(),
        model: request.model.clone(),
        candidate_ref: request.candidate_ref.deep_clone(),
        base_ref: request.base_ref.deep_clone(),
        candidate_version: request.candidate_version.deep_clone(),
        base_version: request.base_version.deep_clone(),
        candidate_relation: request.candidate_relation.display(),
        base_relation: request.base_relation.display(),
        strategy: request.strategy.deep_clone(),
        coverage: measured.coverage,
        key_columns: request.key_columns.deep_clone(),
        row_summary: measured.summary,
        column_changes: measured.column_changes,
        schema_changes,
        partitions_added: measured.partitions.added,
        partitions_removed: measured.partitions.removed,
        partitions_changed: measured.partitions.changed,
        policy_results,
        passed,
        started_at: started_at.to_owned(),
        finished_at: finished_at.to_owned(),
    }
}

/// A threshold on rows that were never counted fails: without a key, or at
/// partition granularity, no row policy passes.
pub proof fn law_unmeasured_thresholds_fail(
    request: DiffRequestView,
    summary: RowSummary,
    fraction: FractionReadingView,
)
    requires
        !rows_measured(request),
        request.policy.max_added_rows is Some || request.policy.max_removed_rows is Some
            || request.policy.max_modified_rows is Some || request.policy.max_changed_fraction
            is Some || request.policy.require_keyed_diff,
    ensures
        !all_passed(policy_verdicts(request.policy, request, summary, fraction)),
{
    let r = policy_verdicts(request.policy, request, summary, fraction);
    assert(r.len() > 0);
    assert(!r[0].passed);
}

/// How a classification is spelled in a report.
pub open spec fn safety_word(safety: SchemaChangeSafety) -> Seq<char> {
    match safety {
        SchemaChangeSafety::Safe => "safe"@,
        SchemaChangeSafety::Review => "review"@,
        SchemaChangeSafety::FullRebuildRequired => "fullrebuildrequired"@,
        SchemaChangeSafety::Error => "error"@,
    }
}

/// Attach a schema-safety classification to a report.
pub fn attach_schema_changes(report: &mut DiffReport, safety: SchemaChangeSafety)
    ensures
        final(report).deep_view() == (DiffReportView {
            schema_changes: old(report).deep_view().schema_changes.push(
                schema_entry(
                    "*"@,
                    "schema"@,
                    "see compiler schema classification"@,
                    safety_word(safety),
                ),
            ),
            ..old(report).deep_view()
        }),
{
    let word: &str = match safety {
        SchemaChangeSafety::Safe => "safe",
        SchemaChangeSafety::Review => "review",
        SchemaChangeSafety::FullRebuildRequired => "fullrebuildrequired",
        SchemaChangeSafety::Error => "error",
    };
    put(
        &mut report.schema_changes,
        make_entry("*", "schema", "see compiler schema classification".to_owned(), word),
    );
}

} // verus!
