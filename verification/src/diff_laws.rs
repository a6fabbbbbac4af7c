//! What a diff promises: what its queries count, what a policy's verdict means,
//! and which schema changes are reported.

use vstd::prelude::*;

use crate::diff::{
    all_passed, changed_sql, changed_sqls, column_changes, column_counts, column_sql, counts_by_key,
    delta_of, digits_value, distance, if_missing, if_recounted, keyed_sql, measurement,
    null_safe_joins, number_of, partition_key, partition_sql, partitions_only_in, parsed_i64,
    plain_joins, policy_verdicts, report_of, row_verdict, rows_of, sampled_sql, within_bounds,
    AnswerView, DataAnswerView, DiffRequestView, FractionReadingView, MeasuredView,
    PolicyResultView, SchemaChangeView,
};
use crate::error::EngineErrorView;
use crate::names::{ascending, has_name, lemma_name_unique, lemma_with_name, named, with_name};
use crate::seqs::{gather, lemma_gather_member};
use crate::text::{begins, decimal_text, digit, ends, join_text};
use crate::workspace::{quoted, relation_text, ColumnToleranceView, RelationView};

verus! {

/// A side of a comparison.
pub enum Side {
    Base,
    Candidate,
}

/// What a row of the full join is counted for.
pub enum Counted {
    /// One side has no row for the key.
    Missing(Side),
    /// Both sides have one, and a compared column differs or not.
    Both { changed: bool },
}

/// The name by which a query calls a side.
pub open spec fn alias(side: Side) -> Seq<char> {
    match side {
        Side::Base => "b"@,
        Side::Candidate => "c"@,
    }
}

/// A column of a side.
pub open spec fn column_of(side: Side, column: Seq<char>) -> Seq<char> {
    alias(side) + "."@ + quoted(column)
}

/// What is counted, as a condition on the joined row; `key` is null on a side
/// that has no row, and `differs` says that a compared column differs.
pub open spec fn condition(counted: Counted, key: Seq<char>, differs: Seq<char>) -> Seq<char> {
    match counted {
        Counted::Missing(side) => column_of(side, key) + " IS NULL"@,
        Counted::Both { changed } => column_of(Side::Base, key) + " IS NOT NULL AND "@ + column_of(
            Side::Candidate,
            key,
        ) + " IS NOT NULL AND "@ + (if changed {
            "("@ + differs + ")"@
        } else {
            "NOT ("@ + differs + ")"@
        }),
    }
}

/// A counted column of the query.
pub open spec fn counting(
    counted: Counted,
    key: Seq<char>,
    differs: Seq<char>,
    name: Seq<char>,
) -> Seq<char> {
    "count(*) FILTER (WHERE "@ + condition(counted, key, differs) + ") AS "@ + name
}

/// The keys that a condition counts, over two relations by key; `differs` holds
/// the keys whose compared columns differ.
pub open spec fn counted_keys<K, V>(
    counted: Counted,
    base: Map<K, V>,
    candidate: Map<K, V>,
    differs: Set<K>,
) -> Set<K> {
    Set::new(
        |key: K|
            (base.contains_key(key) || candidate.contains_key(key)) && match counted {
                Counted::Missing(Side::Base) => !base.contains_key(key),
                Counted::Missing(Side::Candidate) => !candidate.contains_key(key),
                Counted::Both { changed } => base.contains_key(key) && candidate.contains_key(key)
                    && differs.contains(key) == changed,
            },
    )
}

/// The four columns of a keyed comparison, in their order.
pub open spec fn keyed_columns() -> Seq<(Counted, Seq<char>)> {
    seq![
        (Counted::Missing(Side::Base), "added"@),
        (Counted::Missing(Side::Candidate), "removed"@),
        (Counted::Both { changed: true }, "modified"@),
        (Counted::Both { changed: false }, "unchanged"@),
    ]
}

/// The full join of a candidate and a base.
pub open spec fn full_join(base: Seq<char>, candidate: Seq<char>, on: Seq<char>) -> Seq<char> {
    candidate + (") "@ + alias(Side::Candidate) + " FULL OUTER JOIN ("@) + base + (") "@ + alias(
        Side::Base,
    ) + " ON "@) + on
}

/// The condition under which some compared column differs.
pub open spec fn any_differs(request: DiffRequestView) -> Seq<char> {
    let conditions = changed_sqls(request.columns, request.policy.tolerances);
    if conditions.len() == 0 {
        "false"@
    } else {
        join_text(conditions, " OR "@)
    }
}

/// The keyed query joins the candidate and the base in full, and its four numbers
/// count, in this order, the rows that the base misses, those that the candidate
/// misses, those on both sides that differ in a compared column, and those that
/// do not.
pub proof fn law_keyed_queries_count_by_side(
    request: DiffRequestView,
    base: Seq<char>,
    candidate: Seq<char>,
)
    requires
        request.key_columns.len() > 0,
    ensures
        ({
            let key = request.key_columns[0];
            let differs = any_differs(request);
            let c = keyed_columns();
            keyed_sql(request, base, candidate) == ("SELECT "@ + counting(
                c[0].0,
                key,
                differs,
                c[0].1,
            ) + ", "@) + (counting(c[1].0, key, differs, c[1].1) + ", "@) + (counting(
                c[2].0,
                key,
                differs,
                c[2].1,
            ) + ", "@) + (counting(c[3].0, key, differs, c[3].1) + " FROM ("@) + full_join(
                base,
                candidate,
                join_text(null_safe_joins(request.key_columns), " AND "@),
            )
        }),
        null_safe_joins(request.key_columns).len() == request.key_columns.len(),
        forall|i: int|
            0 <= i < request.key_columns.len() ==> #[trigger] null_safe_joins(
                request.key_columns,
            )[i] == column_of(Side::Base, request.key_columns[i]) + " IS NOT DISTINCT FROM "@
                + column_of(Side::Candidate, request.key_columns[i]),
{
    let key = request.key_columns[0];
    let differs = any_differs(request);
    lemma_sides();
    lemma_added_piece(key, differs);
    lemma_removed_piece(key, differs);
    lemma_modified_piece(key, differs);
    lemma_unchanged_piece(key, differs);
    lemma_join_piece(
        base,
        candidate,
        join_text(null_safe_joins(request.key_columns), " AND "@),
    );
}

proof fn lemma_added_piece(key: Seq<char>, differs: Seq<char>)
    ensures
        "SELECT count(*) FILTER (WHERE "@ + ("b."@ + quoted(key)) + " IS NULL) AS added, "@
            == "SELECT "@ + counting(Counted::Missing(Side::Base), key, differs, "added"@) + ", "@,
{
    lemma_sides();
    lemma_keyed_literals();
    assert("SELECT count(*) FILTER (WHERE "@ + ("b."@ + quoted(key)) + " IS NULL) AS added, "@
        =~= "SELECT "@ + counting(Counted::Missing(Side::Base), key, differs, "added"@) + ", "@);
}

proof fn lemma_removed_piece(key: Seq<char>, differs: Seq<char>)
    ensures
        "count(*) FILTER (WHERE "@ + ("c."@ + quoted(key)) + " IS NULL) AS removed, "@ == counting(
            Counted::Missing(Side::Candidate),
            key,
            differs,
            "removed"@,
        ) + ", "@,
{
    lemma_sides();
    lemma_keyed_literals();
    assert("count(*) FILTER (WHERE "@ + ("c."@ + quoted(key)) + " IS NULL) AS removed, "@
        =~= counting(Counted::Missing(Side::Candidate), key, differs, "removed"@) + ", "@);
}

spec fn both_there(key: Seq<char>) -> Seq<char> {
    "count(*) FILTER (WHERE "@ + ("b."@ + quoted(key)) + " IS NOT NULL AND "@ + ("c."@ + quoted(
        key,
    )) + " IS NOT NULL AND "@
}

proof fn lemma_modified_piece(key: Seq<char>, differs: Seq<char>)
    ensures
        both_there(key) + "("@ + differs + ")) AS modified, "@ == counting(
            Counted::Both { changed: true },
            key,
            differs,
            "modified"@,
        ) + ", "@,
{
    lemma_sides();
    lemma_keyed_literals();
    assert(both_there(key) + "("@ + differs + ")) AS modified, "@ =~= counting(
        Counted::Both { changed: true },
        key,
        differs,
        "modified"@,
    ) + ", "@);
}

proof fn lemma_unchanged_piece(key: Seq<char>, differs: Seq<char>)
    ensures
        both_there(key) + "NOT ("@ + differs + ")) AS unchanged FROM ("@ == counting(
            Counted::Both { changed: false },
            key,
            differs,
            "unchanged"@,
        ) + " FROM ("@,
{
    lemma_sides();
    lemma_keyed_literals();
    assert(both_there(key) + "NOT ("@ + differs + ")) AS unchanged FROM ("@ =~= counting(
        Counted::Both { changed: false },
        key,
        differs,
        "unchanged"@,
    ) + " FROM ("@);
}

proof fn lemma_join_piece(base: Seq<char>, candidate: Seq<char>, on: Seq<char>)
    ensures
        candidate + ") c FULL OUTER JOIN ("@ + base + ") b ON "@ + on == full_join(
            base,
            candidate,
            on,
        ),
{
    lemma_keyed_literals();
}

proof fn lemma_sides()
    ensures
        "b."@ == alias(Side::Base) + "."@,
        "c."@ == alias(Side::Candidate) + "."@,
{
    reveal_strlit("b.");
    reveal_strlit("c.");
    reveal_strlit("b");
    reveal_strlit("c");
    reveal_strlit(".");
    assert("b."@ =~= alias(Side::Base) + "."@);
    assert("c."@ =~= alias(Side::Candidate) + "."@);
}

proof fn lemma_keyed_literals()
    ensures
        "SELECT count(*) FILTER (WHERE "@ == "SELECT "@ + "count(*) FILTER (WHERE "@,
        " IS NULL) AS added, "@ == " IS NULL"@ + ") AS "@ + "added"@ + ", "@,
        " IS NULL) AS removed, "@ == " IS NULL"@ + ") AS "@ + "removed"@ + ", "@,
        ")) AS modified, "@ == ")"@ + ") AS "@ + "modified"@ + ", "@,
        ")) AS unchanged FROM ("@ == ")"@ + ") AS "@ + "unchanged"@ + " FROM ("@,
        ") c FULL OUTER JOIN ("@ == ") "@ + alias(Side::Candidate) + " FULL OUTER JOIN ("@,
        ") b ON "@ == ") "@ + alias(Side::Base) + " ON "@,
        ") c JOIN ("@ == ") "@ + alias(Side::Candidate) + " JOIN ("@,
{
    reveal_strlit("SELECT count(*) FILTER (WHERE ");
    reveal_strlit("SELECT ");
    reveal_strlit("count(*) FILTER (WHERE ");
    reveal_strlit(" IS NULL) AS added, ");
    reveal_strlit(" IS NULL");
    reveal_strlit(") AS ");
    reveal_strlit("added");
    reveal_strlit(", ");
    reveal_strlit(" IS NULL) AS removed, ");
    reveal_strlit("removed");
    reveal_strlit(")) AS modified, ");
    reveal_strlit(")");
    reveal_strlit("modified");
    reveal_strlit(")) AS unchanged FROM (");
    reveal_strlit("unchanged");
    reveal_strlit(" FROM (");
    reveal_strlit(") c FULL OUTER JOIN (");
    reveal_strlit(") ");
    reveal_strlit("c");
    reveal_strlit("b");
    reveal_strlit(" FULL OUTER JOIN (");
    reveal_strlit(") b ON ");
    reveal_strlit(" ON ");
    reveal_strlit(") c JOIN (");
    reveal_strlit(" JOIN (");
    assert("SELECT count(*) FILTER (WHERE "@ =~= "SELECT "@ + "count(*) FILTER (WHERE "@);
    assert(" IS NULL) AS added, "@ =~= " IS NULL"@ + ") AS "@ + "added"@ + ", "@);
    assert(" IS NULL) AS removed, "@ =~= " IS NULL"@ + ") AS "@ + "removed"@ + ", "@);
    assert(")) AS modified, "@ =~= ")"@ + ") AS "@ + "modified"@ + ", "@);
    assert(")) AS unchanged FROM ("@ =~= ")"@ + ") AS "@ + "unchanged"@ + " FROM ("@);
    assert(") c FULL OUTER JOIN ("@ =~= ") "@ + alias(Side::Candidate) + " FULL OUTER JOIN ("@);
    assert(") b ON "@ =~= ") "@ + alias(Side::Base) + " ON "@);
    assert(") c JOIN ("@ =~= ") "@ + alias(Side::Candidate) + " JOIN ("@);
}

/// Over any two relations by key, the four numbers of a keyed comparison are the
/// candidate's keys that the base misses, the base's keys that the candidate
/// misses, and the common keys, split by whether a compared column differs.
pub proof fn law_keyed_counts_are_of_keys<K, V>(
    base: Map<K, V>,
    candidate: Map<K, V>,
    differs: Set<K>,
)
    ensures
        ({
            let c = keyed_columns();
            let added = counted_keys(c[0].0, base, candidate, differs);
            let removed = counted_keys(c[1].0, base, candidate, differs);
            let modified = counted_keys(c[2].0, base, candidate, differs);
            let unchanged = counted_keys(c[3].0, base, candidate, differs);
            &&& added == candidate.dom().difference(base.dom())
            &&& removed == base.dom().difference(candidate.dom())
            &&& modified == base.dom().intersect(candidate.dom()).intersect(differs)
            &&& unchanged == base.dom().intersect(candidate.dom()).difference(differs)
        }),
{
    let c = keyed_columns();
    assert(counted_keys(c[0].0, base, candidate, differs) =~= candidate.dom().difference(
        base.dom(),
    ));
    assert(counted_keys(c[1].0, base, candidate, differs) =~= base.dom().difference(
        candidate.dom(),
    ));
    assert(counted_keys(c[2].0, base, candidate, differs) =~= base.dom().intersect(
        candidate.dom(),
    ).intersect(differs));
    assert(counted_keys(c[3].0, base, candidate, differs) =~= base.dom().intersect(
        candidate.dom(),
    ).difference(differs));
}

/// A column's query joins both sides on every key column and counts the rows in
/// which that column changed.
pub proof fn law_column_queries_count_common_rows(
    request: DiffRequestView,
    base: Seq<char>,
    candidate: Seq<char>,
    column: Seq<char>,
)
    ensures
        begins(
            column_sql(request, base, candidate, column),
            "SELECT count(*) FROM ("@ + candidate + ") "@ + alias(Side::Candidate) + " JOIN ("@
                + base + ") "@ + alias(Side::Base) + " ON "@ + join_text(
                plain_joins(request.key_columns),
                " AND "@,
            ),
        ),
        ends(
            column_sql(request, base, candidate, column),
            " WHERE "@ + changed_sql(column, named(request.policy.tolerances, column)),
        ),
        plain_joins(request.key_columns).len() == request.key_columns.len(),
        forall|i: int|
            0 <= i < request.key_columns.len() ==> #[trigger] plain_joins(request.key_columns)[i]
                == column_of(Side::Base, request.key_columns[i]) + " = "@ + column_of(
                Side::Candidate,
                request.key_columns[i],
            ),
{
    lemma_sides();
    lemma_keyed_literals();
    let text = column_sql(request, base, candidate, column);
    let head = "SELECT count(*) FROM ("@ + candidate + ") "@ + alias(Side::Candidate) + " JOIN ("@
        + base + ") "@ + alias(Side::Base) + " ON "@ + join_text(
        plain_joins(request.key_columns),
        " AND "@,
    );
    let tail = " WHERE "@ + changed_sql(column, named(request.policy.tolerances, column));
    assert(text =~= head + tail);
    assert(text.take(head.len() as int) =~= head);
    assert(text.skip(text.len() - tail.len()) =~= tail);
}

/// Without a tolerance a column changes with any difference, nulls included. With
/// one, a null on one side only is a change, and of two values that are there
/// only a difference that no bound excuses: neither equality nor, where given,
/// the absolute or the relative bound.
pub proof fn law_tolerances_excuse_differences(
    column: Seq<char>,
    tolerance: Option<ColumnToleranceView>,
)
    ensures
        ({
            let b = column_of(Side::Base, column);
            let c = column_of(Side::Candidate, column);
            let gap = "abs("@ + b + " - "@ + c + ")"@;
            &&& tolerance is None ==> changed_sql(column, tolerance) == b
                + " IS DISTINCT FROM "@ + c
            &&& tolerance matches Some(bounds) ==> {
                let excuses = within_bounds(column, bounds);
                &&& begins(
                    changed_sql(column, tolerance),
                    "(("@ + b + " IS NULL) <> ("@ + c + " IS NULL)) OR ("@,
                )
                &&& ends(
                    changed_sql(column, tolerance),
                    b + " IS NOT NULL AND "@ + c + " IS NOT NULL AND NOT ("@ + join_text(
                        excuses,
                        " OR "@,
                    ) + "))"@,
                )
                &&& excuses[0] == b + " = "@ + c
                &&& excuses.len() == 1 + (if bounds.absolute is Some {
                    1int
                } else {
                    0
                }) + (if bounds.relative is Some {
                    1int
                } else {
                    0
                })
                &&& bounds.absolute matches Some(bound) ==> excuses[1] == gap + " <= "@ + bound
                &&& bounds.relative matches Some(bound) ==> begins(
                    excuses.last(),
                    gap + " <= "@ + bound + " * greatest("@,
                )
            }
        }),
{
    lemma_sides();
    let b = column_of(Side::Base, column);
    let c = column_of(Side::Candidate, column);
    let gap = "abs("@ + b + " - "@ + c + ")"@;
    assert(gap =~= distance(column));
    if tolerance is Some {
        let bounds = tolerance->0;
        let excuses = within_bounds(column, bounds);
        let text = changed_sql(column, tolerance);
        let head = "(("@ + b + " IS NULL) <> ("@ + c + " IS NULL)) OR ("@;
        let tail = b + " IS NOT NULL AND "@ + c + " IS NOT NULL AND NOT ("@ + join_text(
            excuses,
            " OR "@,
        ) + "))"@;
        assert(text =~= head + tail);
        assert(text.take(head.len() as int) =~= head);
        assert(text.skip(text.len() - tail.len()) =~= tail);
        if bounds.relative is Some {
            let bound = bounds.relative->0;
            reveal_strlit(" * greatest(abs(");
            reveal_strlit(" * greatest(");
            let start = gap + " <= "@ + bound + " * greatest("@;
            assert(excuses.last().take(start.len() as int) =~= start);
        }
    }
}

/// Partitions are added where the candidate has them and the base has not, and
/// removed the other way round.
pub proof fn law_partition_queries_take_sides(
    base: Seq<char>,
    candidate: Seq<char>,
    columns: Seq<Seq<char>>,
)
    ensures
        ({
            let q = partition_sql(base, candidate, columns);
            let key = partition_key(columns);
            &&& begins(q.added, "SELECT "@ + key + " FROM ("@ + candidate + ") EXCEPT SELECT "@)
            &&& ends(q.added, " FROM ("@ + base + ") ORDER BY 1"@)
            &&& begins(q.removed, "SELECT "@ + key + " FROM ("@ + base + ") EXCEPT SELECT "@)
            &&& ends(q.removed, " FROM ("@ + candidate + ") ORDER BY 1"@)
            &&& ends(q.changed, " WHERE c.n <> b.n ORDER BY 1"@)
            &&& partition_sql(candidate, base, columns).added == q.removed
            &&& partition_sql(candidate, base, columns).removed == q.added
        }),
{
    let q = partition_sql(base, candidate, columns);
    let key = partition_key(columns);
    lemma_only_in(key, candidate, base);
    lemma_only_in(key, base, candidate);
    reveal_strlit(") GROUP BY 1) b ON c.__key = b.__key WHERE c.n <> b.n ORDER BY 1");
    reveal_strlit(" WHERE c.n <> b.n ORDER BY 1");
    let tail = " WHERE c.n <> b.n ORDER BY 1"@;
    assert(q.changed.skip(q.changed.len() - tail.len()) =~= tail);
}

proof fn lemma_only_in(key: Seq<char>, from: Seq<char>, other: Seq<char>)
    ensures
        begins(
            partitions_only_in(key, from, other),
            "SELECT "@ + key + " FROM ("@ + from + ") EXCEPT SELECT "@,
        ),
        ends(partitions_only_in(key, from, other), " FROM ("@ + other + ") ORDER BY 1"@),
{
    let text = partitions_only_in(key, from, other);
    let head = "SELECT "@ + key + " FROM ("@ + from + ") EXCEPT SELECT "@;
    let tail = " FROM ("@ + other + ") ORDER BY 1"@;
    assert(text.take(head.len() as int) =~= head);
    assert(text.skip(text.len() - tail.len()) =~= tail);
}

/// A relation is sampled exactly where the strategy samples and a percentage is
/// given; otherwise it is read whole.
pub proof fn law_only_sampled_diffs_sample(relation: RelationView, request: DiffRequestView)
    ensures
        !(request.strategy is Sampled && request.sample_percent is Some) ==> sampled_sql(
            relation,
            request,
        ) == crate::workspace::relation_sql(relation),
        request.strategy is Sampled && request.sample_percent is Some ==> begins(
            sampled_sql(relation, request),
            crate::workspace::relation_sql(relation) + " TABLESAMPLE BERNOULLI ("@
                + request.sample_percent->0,
        ),
{
    if request.strategy is Sampled && request.sample_percent is Some {
        let text = sampled_sql(relation, request);
        let head = crate::workspace::relation_sql(relation) + " TABLESAMPLE BERNOULLI ("@
            + request.sample_percent->0;
        assert(text.take(head.len() as int) =~= head);
    }
}

proof fn lemma_passed_joined(a: Seq<PolicyResultView>, b: Seq<PolicyResultView>)
    ensures
        all_passed(a + b) <==> all_passed(a) && all_passed(b),
{
    let s = a + b;
    if all_passed(s) {
        assert forall|i: int| 0 <= i < a.len() implies (#[trigger] a[i]).passed by {
            assert(s[i] == a[i]);
        }
        assert forall|i: int| 0 <= i < b.len() implies (#[trigger] b[i]).passed by {
            assert(s[a.len() + i] == b[i]);
        }
    }
}

/// Whether an optional bound is kept.
pub open spec fn keeps(value: i64, max: Option<i64>) -> bool {
    max is None || value <= max->0
}

/// A diff passes exactly where it keeps every bound that its policy sets: added,
/// removed and modified rows and the changed fraction, each of which has to be
/// measured by key, and the coverage that the policy requires.
pub proof fn law_diffs_pass_within_their_bounds(
    id: Seq<char>,
    request: DiffRequestView,
    measured: MeasuredView,
    schema_changes: Seq<SchemaChangeView>,
    fraction: FractionReadingView,
    started_at: Seq<char>,
    finished_at: Seq<char>,
)
    ensures
        ({
            let report = report_of(
                id,
                request,
                measured,
                schema_changes,
                fraction,
                started_at,
                finished_at,
            );
            let policy = request.policy;
            let rows = measured.summary;
            let by_key = request.key_columns.len() > 0 && !(request.strategy is Partition);
            let bounded = policy.max_added_rows is Some || policy.max_removed_rows is Some
                || policy.max_modified_rows is Some || policy.max_changed_fraction is Some
                || policy.require_keyed_diff;
            report.passed <==> {
                &&& bounded ==> by_key
                &&& keeps(rows.added, policy.max_added_rows)
                &&& keeps(rows.removed, policy.max_removed_rows)
                &&& keeps(rows.modified, policy.max_modified_rows)
                &&& policy.max_changed_fraction is Some ==> fraction.within
                &&& policy.require_full_diff ==> request.key_columns.len() > 0 && (request.strategy
                    is Keyed || request.strategy is Full)
            }
        }),
        report_of(
            id,
            request,
            measured,
            schema_changes,
            fraction,
            started_at,
            finished_at,
        ).row_summary == measured.summary,
        report_of(
            id,
            request,
            measured,
            schema_changes,
            fraction,
            started_at,
            finished_at,
        ).schema_changes == schema_changes,
        report_of(
            id,
            request,
            measured,
            schema_changes,
            fraction,
            started_at,
            finished_at,
        ).candidate_relation == relation_text(request.candidate_relation),
        report_of(
            id,
            request,
            measured,
            schema_changes,
            fraction,
            started_at,
            finished_at,
        ).base_relation == relation_text(request.base_relation),
{
    let policy = request.policy;
    let summary = measured.summary;
    let by_key = request.key_columns.len() > 0 && !(request.strategy is Partition);
    let a = row_verdict("max_added_rows"@, "added"@, summary.added, policy.max_added_rows, by_key);
    let b = row_verdict(
        "max_removed_rows"@,
        "removed"@,
        summary.removed,
        policy.max_removed_rows,
        by_key,
    );
    let c = row_verdict(
        "max_modified_rows"@,
        "modified"@,
        summary.modified,
        policy.max_modified_rows,
        by_key,
    );
    let d = match policy.max_changed_fraction {
        Some(bound) => seq![
            PolicyResultView {
                policy: "max_changed_fraction"@,
                passed: by_key && fraction.within,
                detail: if by_key {
                    "changed fraction "@ + fraction.text + " (max "@ + bound + ")"@
                } else {
                    "changed fraction cannot be measured without keyed row counts"@
                },
            },
        ],
        None => Seq::empty(),
    };
    let e = if policy.require_keyed_diff {
        seq![
            PolicyResultView {
                policy: "require_keyed_diff"@,
                passed: by_key,
                detail: "a stable key is required for keyed diffing"@,
            },
        ]
    } else {
        Seq::empty()
    };
    let full = request.key_columns.len() > 0 && (request.strategy is Keyed || request.strategy
        is Full);
    let f = if policy.require_full_diff {
        seq![
            PolicyResultView {
                policy: "require_full_diff"@,
                passed: full,
                detail: "full/keyed coverage is required"@,
            },
        ]
    } else {
        Seq::empty()
    };
    assert(policy_verdicts(policy, request, summary, fraction) == a + b + c + d + e + f);
    lemma_passed_joined(a, b);
    lemma_passed_joined(a + b, c);
    lemma_passed_joined(a + b + c, d);
    lemma_passed_joined(a + b + c + d, e);
    lemma_passed_joined(a + b + c + d + e, f);
    lemma_row_verdict("max_added_rows"@, "added"@, summary.added, policy.max_added_rows, by_key);
    lemma_row_verdict(
        "max_removed_rows"@,
        "removed"@,
        summary.removed,
        policy.max_removed_rows,
        by_key,
    );
    lemma_row_verdict(
        "max_modified_rows"@,
        "modified"@,
        summary.modified,
        policy.max_modified_rows,
        by_key,
    );
    assert(all_passed(d) <==> (policy.max_changed_fraction is Some ==> by_key && fraction.within))
        by {
        if policy.max_changed_fraction is Some {
            assert(d[0].passed <==> by_key && fraction.within);
        }
    }
    assert(all_passed(e) <==> (policy.require_keyed_diff ==> by_key)) by {
        if policy.require_keyed_diff {
            assert(e[0].passed <==> by_key);
        }
    }
    assert(all_passed(f) <==> (policy.require_full_diff ==> full)) by {
        if policy.require_full_diff {
            assert(f[0].passed <==> full);
        }
    }
}

proof fn lemma_row_verdict(
    name: Seq<char>,
    metric: Seq<char>,
    value: i64,
    max: Option<i64>,
    measured: bool,
)
    ensures
        all_passed(row_verdict(name, metric, value, max, measured)) <==> (max is Some ==> measured
            && value <= max->0),
{
    let r = row_verdict(name, metric, value, max, measured);
    if max is Some {
        assert(r[0].passed <==> measured && value <= max->0);
    }
}

/// The counts of a diff are the numbers that its queries answered, each from its
/// own cell: the sides' row counts from theirs, and added, removed, modified and
/// unchanged rows from the first four cells of the keyed answer.
pub proof fn law_measurements_are_the_answers(
    request: DiffRequestView,
    base_count: AnswerView,
    candidate_count: AnswerView,
    data: DataAnswerView,
)
    ensures
        measurement(request, base_count, candidate_count, data) matches Ok(m) ==> {
            &&& number_of(base_count) == Ok::<i64, EngineErrorView>(m.summary.base_rows)
            &&& number_of(candidate_count) == Ok::<i64, EngineErrorView>(m.summary.candidate_rows)
            &&& i64::MIN <= m.summary.candidate_rows - m.summary.base_rows <= i64::MAX
                ==> m.summary.delta == m.summary.candidate_rows - m.summary.base_rows
            &&& data matches DataAnswerView::Keyed { counts, columns } ==> {
                &&& rows_of(counts) matches Ok(rows) && rows.len() > 0 && rows[0].len() >= 4
                    && parsed_i64(rows[0][0]) == Some(m.summary.added) && parsed_i64(rows[0][1])
                    == Some(m.summary.removed) && parsed_i64(rows[0][2]) == Some(
                    m.summary.modified,
                ) && parsed_i64(rows[0][3]) == Some(m.summary.unchanged)
                &&& column_counts(request.columns, columns) == Ok::<
                    Seq<(Seq<char>, i64)>,
                    EngineErrorView,
                >(m.column_changes)
            }
            &&& !(data is Keyed) ==> m.summary.added == 0 && m.summary.removed == 0
                && m.summary.modified == 0 && m.summary.unchanged == 0 && m.column_changes.len()
                == 0
            &&& data matches DataAnswerView::Metadata { base, candidate } ==> m.partitions
                == delta_of(base, candidate)
        },
        number_of(base_count) is Err || number_of(candidate_count) is Err ==> measurement(
            request,
            base_count,
            candidate_count,
            data,
        ) is Err,
        number_of(base_count) is Ok && number_of(candidate_count) is Ok && (data is Counts || data
            is Metadata) ==> measurement(request, base_count, candidate_count, data) is Ok,
{
}

/// An answer is a number exactly where its first cell denotes one.
pub proof fn law_numbers_are_first_cells(answer: AnswerView)
    ensures
        number_of(answer) matches Ok(n) ==> (answer matches AnswerView::Rows(rows) && rows.len() > 0
            && rows[0].len() > 0 && parsed_i64(rows[0][0]) == Some(n)),
        answer matches AnswerView::Rows(rows) && rows.len() > 0 && rows[0].len() > 0 && parsed_i64(
            rows[0][0],
        ) is Some ==> number_of(answer) is Ok,
        answer is Failed ==> number_of(answer) is Err,
{
}

/// A column is reported as changed exactly where its query counted rows, with
/// that count.
pub proof fn law_changed_columns_are_those_counted(
    columns: Seq<Seq<char>>,
    answers: Seq<AnswerView>,
    k: int,
)
    requires
        columns.no_duplicates(),
        columns.len() <= answers.len(),
        0 <= k < columns.len(),
    ensures
        column_counts(columns, answers) matches Ok(counts) ==> ascending(counts) && number_of(
            answers[k],
        ) is Ok && named(counts, columns[k]) == (if number_of(answers[k])->Ok_0 > 0 {
            Some(number_of(answers[k])->Ok_0)
        } else {
            None
        }),
    decreases columns.len(),
{
    let rest = columns.drop_last();
    lemma_counts_ascend(rest, answers);
    lemma_counts_within(rest, answers, columns.last());
    let before = column_counts(rest, answers);
    if before is Ok && number_of(answers[columns.len() - 1]) is Ok {
        let n = number_of(answers[columns.len() - 1])->Ok_0;
        if n > 0 {
            lemma_with_name(before->Ok_0, columns.last(), n);
        }
        assert(rest.no_duplicates());
        assert(!rest.contains(columns.last())) by {
            if rest.contains(columns.last()) {
                let j = choose|j: int| 0 <= j < rest.len() && rest[j] == columns.last();
                assert(columns[j] == columns[columns.len() - 1]);
            }
        }
        if k < rest.len() {
            assert(rest[k] == columns[k]);
            law_changed_columns_are_those_counted(rest, answers, k);
        } else {
            assert(!has_name(before->Ok_0, columns.last()));
        }
    }
}

proof fn lemma_counts_ascend(columns: Seq<Seq<char>>, answers: Seq<AnswerView>)
    ensures
        column_counts(columns, answers) matches Ok(counts) ==> ascending(counts),
    decreases columns.len(),
{
    if columns.len() > 0 {
        lemma_counts_ascend(columns.drop_last(), answers);
        let before = column_counts(columns.drop_last(), answers);
        let last = number_of(answers[columns.len() - 1]);
        if before is Ok && last is Ok {
            lemma_with_name(before->Ok_0, columns.last(), last->Ok_0);
        }
    }
}

proof fn lemma_counts_within(columns: Seq<Seq<char>>, answers: Seq<AnswerView>, name: Seq<char>)
    ensures
        column_counts(columns, answers) matches Ok(counts) ==> (has_name(counts, name)
            ==> columns.contains(name)),
    decreases columns.len(),
{
    if columns.len() > 0 {
        let rest = columns.drop_last();
        lemma_counts_within(rest, answers, name);
        lemma_counts_ascend(rest, answers);
        let before = column_counts(rest, answers);
        let last = number_of(answers[columns.len() - 1]);
        if before is Ok && last is Ok {
            lemma_with_name(before->Ok_0, columns.last(), last->Ok_0);
            let after = with_name(before->Ok_0, columns.last(), last->Ok_0);
            assert(has_name(after, name) <==> named(after, name) is Some);
            assert(has_name(before->Ok_0, name) <==> named(before->Ok_0, name) is Some);
        }
        if rest.contains(name) {
            let j = choose|j: int| 0 <= j < rest.len() && rest[j] == name;
            assert(columns[j] == name);
        }
        assert(columns[columns.len() - 1] == columns.last());
    }
}

/// Counts by partition: every partition listed is there, each with the count that
/// is listed last.
pub proof fn law_partition_counts_are_the_last_listed(
    entries: Seq<(Seq<char>, i64)>,
    key: Seq<char>,
)
    ensures
        ascending(counts_by_key(entries)),
        has_name(counts_by_key(entries), key) <==> has_name(entries, key),
        entries.len() > 0 ==> named(counts_by_key(entries), entries.last().0) == Some(
            entries.last().1,
        ),
        entries.len() > 0 && entries.last().0 != key ==> named(counts_by_key(entries), key)
            == named(counts_by_key(entries.drop_last()), key),
    decreases entries.len(),
{
    if entries.len() > 0 {
        let rest = entries.drop_last();
        law_partition_counts_are_the_last_listed(rest, key);
        let before = counts_by_key(rest);
        let now = counts_by_key(entries);
        lemma_with_name(before, entries.last().0, entries.last().1);
        assert(named(now, key) == if key == entries.last().0 {
            Some(entries.last().1)
        } else {
            named(before, key)
        });
        assert(has_name(now, key) <==> named(now, key) is Some);
        assert(has_name(before, key) <==> named(before, key) is Some);
        if has_name(rest, key) {
            let i = choose|i: int| 0 <= i < rest.len() && (#[trigger] rest[i]).0 == key;
            assert(entries[i].0 == key);
        }
        if has_name(entries, key) && key != entries.last().0 {
            let i = choose|i: int| 0 <= i < entries.len() && (#[trigger] entries[i]).0 == key;
            assert(rest[i].0 == key);
        }
        assert(entries[entries.len() - 1].0 == entries.last().0);
    }
}

/// A partition is added where only the candidate lists it, removed where only the
/// base does, and changed where both do with different counts.
pub proof fn law_partition_deltas_take_sides(
    base: Seq<(Seq<char>, i64)>,
    candidate: Seq<(Seq<char>, i64)>,
    key: Seq<char>,
)
    ensures
        delta_of(base, candidate).added.contains(key) <==> has_name(candidate, key) && !has_name(
            base,
            key,
        ),
        delta_of(base, candidate).removed.contains(key) <==> has_name(base, key) && !has_name(
            candidate,
            key,
        ),
        delta_of(base, candidate).changed.contains(key) <==> has_name(base, key) && has_name(
            candidate,
            key,
        ) && named(counts_by_key(base), key) != named(counts_by_key(candidate), key),
        delta_of(candidate, base).added == delta_of(base, candidate).removed,
{
    let b = counts_by_key(base);
    let c = counts_by_key(candidate);
    law_partition_counts_are_the_last_listed(base, key);
    law_partition_counts_are_the_last_listed(candidate, key);
    lemma_missing(c, b, key);
    lemma_missing(b, c, key);
    let f = if_recounted(b);
    lemma_gather_member(c, f, key);
    if gather(c, f).contains(key) {
        let i = choose|i: int| 0 <= i < c.len() && f(#[trigger] c[i]).contains(key);
        lemma_name_unique(c, i);
    }
    if has_name(b, key) && has_name(c, key) && named(b, key) != named(c, key) {
        let i = choose|i: int| 0 <= i < c.len() && (#[trigger] c[i]).0 == key;
        lemma_name_unique(c, i);
        assert(f(c[i])[0] == key);
        assert(f(c[i]).contains(key));
    }
}

proof fn lemma_missing(from: Seq<(Seq<char>, i64)>, other: Seq<(Seq<char>, i64)>, key: Seq<char>)
    ensures
        gather(from, if_missing(other)).contains(key) <==> has_name(from, key) && !has_name(
            other,
            key,
        ),
{
    let f = if_missing(other);
    lemma_gather_member(from, f, key);
    if gather(from, f).contains(key) {
        let i = choose|i: int| 0 <= i < from.len() && f(#[trigger] from[i]).contains(key);
        assert(from[i].0 == key);
    }
    if has_name(from, key) && !has_name(other, key) {
        let i = choose|i: int| 0 <= i < from.len() && (#[trigger] from[i]).0 == key;
        assert(f(from[i])[0] == key);
        assert(f(from[i]).contains(key));
    }
}

/// Numbers read back as they are written.
pub proof fn law_decimals_read_back(n: nat)
    ensures
        digits_value(decimal_text(n)) == Some(n),
        n <= i64::MAX ==> parsed_i64(decimal_text(n)) == Some(n as i64),
    decreases n,
{
    let s = decimal_text(n);
    if n >= 10 {
        law_decimals_read_back(n / 10);
        let rest = decimal_text(n / 10);
        lemma_decimal_starts(n / 10);
        assert(s.drop_last() =~= rest);
        assert(s.last() == digit((n % 10) as int));
    } else {
        assert(s.last() == digit(n as int));
    }
    lemma_decimal_starts(n);
}

proof fn lemma_decimal_starts(n: nat)
    ensures
        decimal_text(n).len() > 0,
        '0' <= decimal_text(n)[0] <= '9',
    decreases n,
{
    if n >= 10 {
        lemma_decimal_starts(n / 10);
        assert(decimal_text(n)[0] == decimal_text(n / 10)[0]);
    }
}

} // verus!
