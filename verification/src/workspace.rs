//! The compiled workspace: what the compiler knows of models, seeds, tests
//! and their relations, as far as the engine reads it.

use vstd::prelude::*;

use crate::error::{Diagnostic, DiagnosticView};
use crate::names::NameMap;
use crate::seqs::{first_where, lemma_first_ends, lemma_first_step};
use crate::text::{
    ascii_lower, cat3, cat5, chars_of, lower, none_of, same, split_on, split_text, trim, trim_text,
    DeepClone,
};

verus! {

/// A physical relation. Without a catalog it lives in the connection's own.
#[derive(Clone, Debug, PartialEq, Eq)]
pub struct Relation {
    pub catalog: Option<String>,
    pub schema: String,
    pub table: String,
}

/// The contents of a [`Relation`].
pub struct RelationView {
    pub catalog: Option<Seq<char>>,
    pub schema: Seq<char>,
    pub table: Seq<char>,
}

impl DeepView for Relation {
    type V = RelationView;

    open spec fn deep_view(&self) -> RelationView {
        RelationView {
            catalog: self.catalog.deep_view(),
            schema: self.schema@,
            table: self.table@,
        }
    }
}

impl DeepClone for Relation {
    fn deep_clone(&self) -> (copy: Self) {
        Relation {
            catalog: self.catalog.deep_clone(),
            schema: self.schema.deep_clone(),
            table: self.table.deep_clone(),
        }
    }
}

/// The dotted name of a relation.
pub open spec fn relation_text(relation: RelationView) -> Seq<char> {
    match relation.catalog {
        Some(catalog) => catalog + "."@ + relation.schema + "."@ + relation.table,
        None => relation.schema + "."@ + relation.table,
    }
}

/// `name` in double quotes, with the quotes inside it doubled.
pub open spec fn quoted(name: Seq<char>) -> Seq<char> {
    "\""@ + doubled(name, '"') + "\""@
}

/// `s` with every occurrence of `mark` doubled.
pub open spec fn doubled(s: Seq<char>, mark: char) -> Seq<char>
    decreases s.len(),
{
    if s.len() == 0 {
        Seq::empty()
    } else if s.last() == mark {
        doubled(s.drop_last(), mark).push(mark).push(mark)
    } else {
        doubled(s.drop_last(), mark).push(s.last())
    }
}

/// `s` with every occurrence of `mark` doubled.
pub fn double_marks(s: &str, mark: char) -> (r: String)
    ensures
        r@ == doubled(s@, mark),
{
    let chars: Vec<char> = chars_of(s);
    let mut r: String = String::new();
    assert(s@.take(0) =~= Seq::<char>::empty());
    for i in 0..chars.len()
        invariant
            chars@ == s@,
            r@ == doubled(s@.take(i as int), mark),
    {
        assert(s@.take(i as int + 1).drop_last() =~= s@.take(i as int));
        r.push(chars[i]);
        if chars[i] == mark {
            r.push(mark);
        }
    }
    assert(s@.take(s@.len() as int) =~= s@);
    r
}

/// An identifier quoted for SQL.
pub fn quote(value: &str) -> (r: String)
    ensures
        r@ == quoted(value@),
{
    cat3("\"", double_marks(value, '"').as_str(), "\"")
}

/// The relation as SQL names it: its quoted parts, dotted.
pub open spec fn relation_sql(relation: RelationView) -> Seq<char> {
    match relation.catalog {
        Some(catalog) => quoted(catalog) + "."@ + quoted(relation.schema) + "."@ + quoted(
            relation.table,
        ),
        None => quoted(relation.schema) + "."@ + quoted(relation.table),
    }
}

/// The relation a dotted name of two or three parts denotes.
pub open spec fn parsed_relation(text: Seq<char>) -> Option<RelationView> {
    let parts = split_text(text, '.');
    if parts.len() == 2 {
        Some(RelationView { catalog: None, schema: parts[0], table: parts[1] })
    } else if parts.len() == 3 {
        Some(RelationView { catalog: Some(parts[0]), schema: parts[1], table: parts[2] })
    } else {
        None
    }
}

impl Relation {
    /// The dotted name.
    pub fn display(&self) -> (r: String)
        ensures
            r@ == relation_text(self.deep_view()),
    {
        match &self.catalog {
            Some(catalog) => cat5(
                catalog.as_str(),
                ".",
                self.schema.as_str(),
                ".",
                self.table.as_str(),
            ),
            None => cat3(self.schema.as_str(), ".", self.table.as_str()),
        }
    }

    /// The relation as SQL names it.
    pub fn sql(&self) -> (r: String)
        ensures
            r@ == relation_sql(self.deep_view()),
    {
        let schema: String = quote(self.schema.as_str());
        let table: String = quote(self.table.as_str());
        match &self.catalog {
            Some(catalog) => cat5(
                quote(catalog.as_str()).as_str(),
                ".",
                schema.as_str(),
                ".",
                table.as_str(),
            ),
            None => cat3(schema.as_str(), ".", table.as_str()),
        }
    }

    /// Reads a dotted name of two or three parts.
    pub fn parse(text: &str) -> (r: Option<Relation>)
        ensures
            r.deep_view() == parsed_relation(text@),
    {
        let parts: Vec<String> = split_on(text, '.');
        assert(parts@.len() == parts.deep_view().len());
        if parts.len() == 2 {
            assert(parts.deep_view()[0] == parts@[0]@ && parts.deep_view()[1] == parts@[1]@);
            Some(Relation { catalog: None, schema: parts[0].clone(), table: parts[1].clone() })
        } else if parts.len() == 3 {
            assert(parts.deep_view()[0] == parts@[0]@ && parts.deep_view()[1] == parts@[1]@
                && parts.deep_view()[2] == parts@[2]@);
            Some(
                Relation {
                    catalog: Some(parts[0].clone()),
                    schema: parts[1].clone(),
                    table: parts[2].clone(),
                },
            )
        } else {
            None
        }
    }
}

proof fn lemma_split_plain(s: Seq<char>)
    requires
        !s.contains('.'),
    ensures
        split_text(s, '.') == seq![s],
    decreases s.len(),
{
    if s.len() > 0 {
        assert forall|c: char| s.drop_last().contains(c) implies s.contains(c) by {
            let k = choose|k: int| 0 <= k < s.drop_last().len() && s.drop_last()[k] == c;
            assert(s[k] == c);
        }
        lemma_split_plain(s.drop_last());
        assert(s.contains(s.last()));
        assert(split_text(s, '.') =~= seq![s.drop_last().push(s.last())]);
        assert(s.drop_last().push(s.last()) =~= s);
    } else {
        assert(s =~= Seq::empty());
    }
}

proof fn lemma_split_append(head: Seq<char>, tail: Seq<char>)
    requires
        !tail.contains('.'),
    ensures
        split_text(head + "."@ + tail, '.') == split_text(head, '.').push(tail),
    decreases tail.len(),
{
    reveal_strlit(".");
    let whole = head + "."@ + tail;
    if tail.len() == 0 {
        assert(whole.drop_last() =~= head);
        assert(whole.last() == '.');
        assert(tail =~= Seq::empty());
    } else {
        assert forall|c: char| tail.drop_last().contains(c) implies tail.contains(c) by {
            let k = choose|k: int| 0 <= k < tail.drop_last().len() && tail.drop_last()[k] == c;
            assert(tail[k] == c);
        }
        lemma_split_append(head, tail.drop_last());
        assert(whole.drop_last() =~= head + "."@ + tail.drop_last());
        assert(whole.last() == tail.last());
        assert(tail.contains(tail.last()));
        let pieces = split_text(head, '.').push(tail.drop_last());
        assert(pieces.drop_last() =~= split_text(head, '.'));
        assert(tail.drop_last().push(tail.last()) =~= tail);
    }
}

/// Reading a relation's dotted name gives the relation back, where no part of
/// it contains a dot.
pub proof fn law_relation_name_reads_back(relation: RelationView)
    requires
        !relation.schema.contains('.'),
        !relation.table.contains('.'),
        relation.catalog matches Some(catalog) ==> !catalog.contains('.'),
    ensures
        parsed_relation(relation_text(relation)) == Some(relation),
{
    match relation.catalog {
        Some(catalog) => {
            lemma_split_plain(catalog);
            lemma_split_append(catalog, relation.schema);
            lemma_split_append(catalog + "."@ + relation.schema, relation.table);
        },
        None => {
            lemma_split_plain(relation.schema);
            lemma_split_append(relation.schema, relation.table);
        },
    }
}

/// The type of a column.
#[derive(Clone, Debug, PartialEq, Eq)]
pub enum DataType {
    Boolean,
    TinyInt,
    SmallInt,
    Integer,
    BigInt,
    Real,
    Double,
    Decimal,
    Varchar,
    Date,
    Time,
    Timestamp,
    TimestampTz,
    /// A type the engine does not interpret, by its name.
    Other(String),
    /// No type was inferred.
    Unknown,
}

/// The contents of a [`DataType`].
pub enum DataTypeView {
    Boolean,
    TinyInt,
    SmallInt,
    Integer,
    BigInt,
    Real,
    Double,
    Decimal,
    Varchar,
    Date,
    Time,
    Timestamp,
    TimestampTz,
    Other(Seq<char>),
    Unknown,
}

impl DeepView for DataType {
    type V = DataTypeView;

    open spec fn deep_view(&self) -> DataTypeView {
        match self {
            DataType::Boolean => DataTypeView::Boolean,
            DataType::TinyInt => DataTypeView::TinyInt,
            DataType::SmallInt => DataTypeView::SmallInt,
            DataType::Integer => DataTypeView::Integer,
            DataType::BigInt => DataTypeView::BigInt,
            DataType::Real => DataTypeView::Real,
            DataType::Double => DataTypeView::Double,
            DataType::Decimal => DataTypeView::Decimal,
            DataType::Varchar => DataTypeView::Varchar,
            DataType::Date => DataTypeView::Date,
            DataType::Time => DataTypeView::Time,
            DataType::Timestamp => DataTypeView::Timestamp,
            DataType::TimestampTz => DataTypeView::TimestampTz,
            DataType::Other(value) => DataTypeView::Other(value@),
            DataType::Unknown => DataTypeView::Unknown,
        }
    }
}

impl DeepClone for DataType {
    fn deep_clone(&self) -> (copy: Self) {
        match self {
            DataType::Boolean => DataType::Boolean,
            DataType::TinyInt => DataType::TinyInt,
            DataType::SmallInt => DataType::SmallInt,
            DataType::Integer => DataType::Integer,
            DataType::BigInt => DataType::BigInt,
            DataType::Real => DataType::Real,
            DataType::Double => DataType::Double,
            DataType::Decimal => DataType::Decimal,
            DataType::Varchar => DataType::Varchar,
            DataType::Date => DataType::Date,
            DataType::Time => DataType::Time,
            DataType::Timestamp => DataType::Timestamp,
            DataType::TimestampTz => DataType::TimestampTz,
            DataType::Other(value) => DataType::Other(value.deep_clone()),
            DataType::Unknown => DataType::Unknown,
        }
    }
}

/// The SQL name of a type.
pub open spec fn type_text(data_type: DataTypeView) -> Seq<char> {
    match data_type {
        DataTypeView::Boolean => "boolean"@,
        DataTypeView::TinyInt => "tinyint"@,
        DataTypeView::SmallInt => "smallint"@,
        DataTypeView::Integer => "integer"@,
        DataTypeView::BigInt => "bigint"@,
        DataTypeView::Real => "real"@,
        DataTypeView::Double => "double"@,
        DataTypeView::Decimal => "decimal"@,
        DataTypeView::Varchar => "varchar"@,
        DataTypeView::Date => "date"@,
        DataTypeView::Time => "time"@,
        DataTypeView::Timestamp => "timestamp"@,
        DataTypeView::TimestampTz => "timestamp with time zone"@,
        DataTypeView::Other(name) => name,
        DataTypeView::Unknown => "unknown"@,
    }
}

/// The name of a type's variant, or of the type itself where it is none of the
/// known ones.
pub open spec fn type_label(data_type: DataTypeView) -> Seq<char> {
    match data_type {
        DataTypeView::Boolean => "Boolean"@,
        DataTypeView::TinyInt => "TinyInt"@,
        DataTypeView::SmallInt => "SmallInt"@,
        DataTypeView::Integer => "Integer"@,
        DataTypeView::BigInt => "BigInt"@,
        DataTypeView::Real => "Real"@,
        DataTypeView::Double => "Double"@,
        DataTypeView::Decimal => "Decimal"@,
        DataTypeView::Varchar => "Varchar"@,
        DataTypeView::Date => "Date"@,
        DataTypeView::Time => "Time"@,
        DataTypeView::Timestamp => "Timestamp"@,
        DataTypeView::TimestampTz => "TimestampTz"@,
        DataTypeView::Other(name) => name,
        DataTypeView::Unknown => "Unknown"@,
    }
}

/// The place of a numeric type in the widening order; negative for the others.
pub open spec fn numeric_rank(data_type: DataTypeView) -> int {
    match data_type {
        DataTypeView::TinyInt => 0,
        DataTypeView::SmallInt => 1,
        DataTypeView::Integer => 2,
        DataTypeView::BigInt => 3,
        DataTypeView::Decimal => 4,
        DataTypeView::Real => 5,
        DataTypeView::Double => 6,
        _ => -1,
    }
}

/// Whether both types are numeric and `wide` does not stand before `narrow` in
/// the widening order.
pub open spec fn widens(narrow: DataTypeView, wide: DataTypeView) -> bool {
    0 <= numeric_rank(narrow) <= numeric_rank(wide)
}

spec fn type_tag(data_type: DataTypeView) -> int {
    match data_type {
        DataTypeView::Boolean => 0,
        DataTypeView::TinyInt => 1,
        DataTypeView::SmallInt => 2,
        DataTypeView::Integer => 3,
        DataTypeView::BigInt => 4,
        DataTypeView::Real => 5,
        DataTypeView::Double => 6,
        DataTypeView::Decimal => 7,
        DataTypeView::Varchar => 8,
        DataTypeView::Date => 9,
        DataTypeView::Time => 10,
        DataTypeView::Timestamp => 11,
        DataTypeView::TimestampTz => 12,
        DataTypeView::Other(_) => 13,
        DataTypeView::Unknown => 14,
    }
}

/// The characters of a type's name outside parentheses, ASCII letters in
/// lower case.
pub open spec fn type_base(name: Seq<char>) -> Seq<char>
    decreases name.len(),
{
    if name.len() == 0 {
        Seq::empty()
    } else {
        let before = type_base(name.drop_last());
        if name.last() == '(' || name.last() == ')' || inside_parentheses(name.drop_last()) {
            before
        } else {
            before.push(ascii_lower(name.last()))
        }
    }
}

/// Whether the last parenthesis of `name` is an opening one.
pub open spec fn inside_parentheses(name: Seq<char>) -> bool
    decreases name.len(),
{
    if name.len() == 0 {
        false
    } else if name.last() == '(' {
        true
    } else if name.last() == ')' {
        false
    } else {
        inside_parentheses(name.drop_last())
    }
}

/// The type that a warehouse's type name denotes, its parameters left aside.
pub open spec fn parsed_type(name: Seq<char>) -> DataTypeView {
    let base = trim_text(type_base(name));
    if base == "boolean"@ {
        DataTypeView::Boolean
    } else if base == "tinyint"@ {
        DataTypeView::TinyInt
    } else if base == "smallint"@ {
        DataTypeView::SmallInt
    } else if base == "integer"@ || base == "int"@ {
        DataTypeView::Integer
    } else if base == "bigint"@ {
        DataTypeView::BigInt
    } else if base == "real"@ {
        DataTypeView::Real
    } else if base == "double"@ {
        DataTypeView::Double
    } else if base == "decimal"@ {
        DataTypeView::Decimal
    } else if base == "varchar"@ {
        DataTypeView::Varchar
    } else if base == "date"@ {
        DataTypeView::Date
    } else if base == "time"@ {
        DataTypeView::Time
    } else if base == "timestamp"@ {
        DataTypeView::Timestamp
    } else if base == "timestamp with time zone"@ {
        DataTypeView::TimestampTz
    } else if base.len() == 0 {
        DataTypeView::Unknown
    } else {
        DataTypeView::Other(base)
    }
}

fn base_of(name: &str) -> (r: String)
    ensures
        r@ == type_base(name@),
{
    let chars: Vec<char> = chars_of(name);
    let mut r: String = String::new();
    let mut inside: bool = false;
    assert(name@.take(0) =~= Seq::<char>::empty());
    for i in 0..chars.len()
        invariant
            chars@ == name@,
            r@ == type_base(name@.take(i as int)),
            inside == inside_parentheses(name@.take(i as int)),
    {
        assert(name@.take(i as int + 1).drop_last() =~= name@.take(i as int));
        if chars[i] == '(' {
            inside = true;
        } else if chars[i] == ')' {
            inside = false;
        } else if !inside {
            r.push(lower(chars[i]));
        }
    }
    assert(name@.take(name@.len() as int) =~= name@);
    r
}

impl DataType {
    fn tag(&self) -> (r: u8)
        ensures
            r == type_tag(self.deep_view()),
    {
        match self {
            DataType::Boolean => 0,
            DataType::TinyInt => 1,
            DataType::SmallInt => 2,
            DataType::Integer => 3,
            DataType::BigInt => 4,
            DataType::Real => 5,
            DataType::Double => 6,
            DataType::Decimal => 7,
            DataType::Varchar => 8,
            DataType::Date => 9,
            DataType::Time => 10,
            DataType::Timestamp => 11,
            DataType::TimestampTz => 12,
            DataType::Other(_) => 13,
            DataType::Unknown => 14,
        }
    }

    /// Whether two types are the same.
    pub fn same_as(&self, other: &DataType) -> (r: bool)
        ensures
            r == (self.deep_view() == other.deep_view()),
    {
        match (self, other) {
            (DataType::Other(left), DataType::Other(right)) => same(
                left.as_str(),
                right.as_str(),
            ),
            _ => self.tag() == other.tag(),
        }
    }

    /// The SQL name.
    pub fn name(&self) -> (r: String)
        ensures
            r@ == type_text(self.deep_view()),
    {
        match self {
            DataType::Boolean => "boolean".to_owned(),
            DataType::TinyInt => "tinyint".to_owned(),
            DataType::SmallInt => "smallint".to_owned(),
            DataType::Integer => "integer".to_owned(),
            DataType::BigInt => "bigint".to_owned(),
            DataType::Real => "real".to_owned(),
            DataType::Double => "double".to_owned(),
            DataType::Decimal => "decimal".to_owned(),
            DataType::Varchar => "varchar".to_owned(),
            DataType::Date => "date".to_owned(),
            DataType::Time => "time".to_owned(),
            DataType::Timestamp => "timestamp".to_owned(),
            DataType::TimestampTz => "timestamp with time zone".to_owned(),
            DataType::Other(name) => name.clone(),
            DataType::Unknown => "unknown".to_owned(),
        }
    }

    /// The name of the variant.
    pub fn label(&self) -> (r: String)
        ensures
            r@ == type_label(self.deep_view()),
    {
        match self {
            DataType::Boolean => "Boolean".to_owned(),
            DataType::TinyInt => "TinyInt".to_owned(),
            DataType::SmallInt => "SmallInt".to_owned(),
            DataType::Integer => "Integer".to_owned(),
            DataType::BigInt => "BigInt".to_owned(),
            DataType::Real => "Real".to_owned(),
            DataType::Double => "Double".to_owned(),
            DataType::Decimal => "Decimal".to_owned(),
            DataType::Varchar => "Varchar".to_owned(),
            DataType::Date => "Date".to_owned(),
            DataType::Time => "Time".to_owned(),
            DataType::Timestamp => "Timestamp".to_owned(),
            DataType::TimestampTz => "TimestampTz".to_owned(),
            DataType::Other(name) => name.clone(),
            DataType::Unknown => "Unknown".to_owned(),
        }
    }

    fn rank(&self) -> (r: i8)
        ensures
            r == numeric_rank(self.deep_view()),
    {
        match self {
            DataType::TinyInt => 0,
            DataType::SmallInt => 1,
            DataType::Integer => 2,
            DataType::BigInt => 3,
            DataType::Decimal => 4,
            DataType::Real => 5,
            DataType::Double => 6,
            _ => -1,
        }
    }

    pub fn is_numeric(&self) -> (r: bool)
        ensures
            r == (numeric_rank(self.deep_view()) >= 0),
    {
        self.rank() >= 0
    }

    /// Whether this type holds every value of `narrow`, both numeric.
    pub fn is_widening_of(&self, narrow: &DataType) -> (r: bool)
        ensures
            r == widens(narrow.deep_view(), self.deep_view()),
    {
        narrow.rank() >= 0 && narrow.rank() <= self.rank()
    }

    /// Reads a warehouse's type name.
    pub fn parse_trino(name: &str) -> (r: DataType)
        ensures
            r.deep_view() == parsed_type(name@),
    {
        let base: String = trim(base_of(name).as_str());
        let word: &str = base.as_str();
        if same(word, "boolean") {
            DataType::Boolean
        } else if same(word, "tinyint") {
            DataType::TinyInt
        } else if same(word, "smallint") {
            DataType::SmallInt
        } else if same(word, "integer") || same(word, "int") {
            DataType::Integer
        } else if same(word, "bigint") {
            DataType::BigInt
        } else if same(word, "real") {
            DataType::Real
        } else if same(word, "double") {
            DataType::Double
        } else if same(word, "decimal") {
            DataType::Decimal
        } else if same(word, "varchar") {
            DataType::Varchar
        } else if same(word, "date") {
            DataType::Date
        } else if same(word, "time") {
            DataType::Time
        } else if same(word, "timestamp") {
            DataType::Timestamp
        } else if same(word, "timestamp with time zone") {
            DataType::TimestampTz
        } else if word.is_empty() {
            DataType::Unknown
        } else {
            DataType::Other(base)
        }
    }
}

/// One column of a model's contract.
#[derive(Clone, Debug, PartialEq, Eq)]
pub struct ColumnContract {
    pub name: String,
    pub data_type: Option<DataType>,
    pub nullable: Option<bool>,
}

/// The contents of a [`ColumnContract`].
pub struct ColumnContractView {
    pub name: Seq<char>,
    pub data_type: Option<DataTypeView>,
    pub nullable: Option<bool>,
}

impl DeepView for ColumnContract {
    type V = ColumnContractView;

    open spec fn deep_view(&self) -> ColumnContractView {
        ColumnContractView {
            name: self.name@,
            data_type: self.data_type.deep_view(),
            nullable: self.nullable.deep_view(),
        }
    }
}

impl DeepClone for ColumnContract {
    fn deep_clone(&self) -> (copy: Self) {
        ColumnContract {
            name: self.name.deep_clone(),
            data_type: self.data_type.deep_clone(),
            nullable: self.nullable.deep_clone(),
        }
    }
}

/// What a model promises its consumers.
#[derive(Clone, Debug, PartialEq, Eq)]
pub struct ModelContract {
    pub enforced: bool,
    pub columns: Vec<ColumnContract>,
    /// Declared renames: the new column name, and the name it replaces.
    pub renames: NameMap<String>,
}

/// The contents of a [`ModelContract`].
pub struct ModelContractView {
    pub enforced: bool,
    pub columns: Seq<ColumnContractView>,
    pub renames: Seq<(Seq<char>, Seq<char>)>,
}

impl DeepView for ModelContract {
    type V = ModelContractView;

    open spec fn deep_view(&self) -> ModelContractView {
        ModelContractView {
            enforced: self.enforced,
            columns: self.columns.deep_view(),
            renames: self.renames.deep_view(),
        }
    }
}

impl DeepClone for ModelContract {
    fn deep_clone(&self) -> (copy: Self) {
        ModelContract {
            enforced: self.enforced,
            columns: self.columns.deep_clone(),
            renames: self.renames.deep_clone(),
        }
    }
}

/// How a model's relation is produced.
#[derive(Clone, Copy, Debug, PartialEq, Eq, Structural)]
pub enum Materialization {
    View,
    Table,
    Incremental,
    /// Inlined into its dependents; never a relation of its own.
    Ephemeral,
}

impl DeepView for Materialization {
    type V = Materialization;

    open spec fn deep_view(&self) -> Materialization {
        *self
    }
}

impl DeepClone for Materialization {
    fn deep_clone(&self) -> (copy: Self) {
        *self
    }
}

impl Materialization {
    pub open spec fn text(self) -> Seq<char> {
        match self {
            Materialization::View => "view"@,
            Materialization::Table => "table"@,
            Materialization::Incremental => "incremental"@,
            Materialization::Ephemeral => "ephemeral"@,
        }
    }

    pub fn name(self) -> (r: String)
        ensures
            r@ == self.text(),
    {
        match self {
            Materialization::View => "view".to_owned(),
            Materialization::Table => "table".to_owned(),
            Materialization::Incremental => "incremental".to_owned(),
            Materialization::Ephemeral => "ephemeral".to_owned(),
        }
    }
}

/// How an incremental model is brought up to date.
#[derive(Clone, Debug, PartialEq, Eq)]
pub enum IncrementalStrategy {
    Append,
    Key { columns: Vec<String> },
    Partition { columns: Vec<String> },
    TimeWindow { column: String, overlap_seconds: Option<u64> },
}

/// The contents of a [`IncrementalStrategy`].
pub enum IncrementalStrategyView {
    Append,
    Key { columns: Seq<Seq<char>> },
    Partition { columns: Seq<Seq<char>> },
    TimeWindow { column: Seq<char>, overlap_seconds: Option<u64> },
}

impl DeepView for IncrementalStrategy {
    type V = IncrementalStrategyView;

    open spec fn deep_view(&self) -> IncrementalStrategyView {
        match self {
            IncrementalStrategy::Append => IncrementalStrategyView::Append,
            IncrementalStrategy::Key { columns } => IncrementalStrategyView::Key {
                columns: columns.deep_view(),
            },
            IncrementalStrategy::Partition { columns } => IncrementalStrategyView::Partition {
                columns: columns.deep_view(),
            },
            IncrementalStrategy::TimeWindow {
                column,
                overlap_seconds,
            } => IncrementalStrategyView::TimeWindow {
                column: column@,
                overlap_seconds: overlap_seconds.deep_view(),
            },
        }
    }
}

impl DeepClone for IncrementalStrategy {
    fn deep_clone(&self) -> (copy: Self) {
        match self {
            IncrementalStrategy::Append => IncrementalStrategy::Append,
            IncrementalStrategy::Key { columns } => IncrementalStrategy::Key {
                columns: columns.deep_clone(),
            },
            IncrementalStrategy::Partition { columns } => IncrementalStrategy::Partition {
                columns: columns.deep_clone(),
            },
            IncrementalStrategy::TimeWindow {
                column,
                overlap_seconds,
            } => IncrementalStrategy::TimeWindow {
                column: column.deep_clone(),
                overlap_seconds: overlap_seconds.deep_clone(),
            },
        }
    }
}

/// The code of a strategy.
pub open spec fn strategy_text(strategy: IncrementalStrategyView) -> Seq<char> {
    match strategy {
        IncrementalStrategyView::Append => "append"@,
        IncrementalStrategyView::Key { .. } => "key"@,
        IncrementalStrategyView::Partition { .. } => "partition"@,
        IncrementalStrategyView::TimeWindow { .. } => "time_window"@,
    }
}

/// The columns a strategy works by.
pub open spec fn strategy_columns(strategy: IncrementalStrategyView) -> Seq<Seq<char>> {
    match strategy {
        IncrementalStrategyView::Append => Seq::empty(),
        IncrementalStrategyView::Key { columns } => columns,
        IncrementalStrategyView::Partition { columns } => columns,
        IncrementalStrategyView::TimeWindow { column, .. } => seq![column],
    }
}

impl IncrementalStrategy {
    pub fn code(&self) -> (r: String)
        ensures
            r@ == strategy_text(self.deep_view()),
    {
        match self {
            IncrementalStrategy::Append => "append".to_owned(),
            IncrementalStrategy::Key { .. } => "key".to_owned(),
            IncrementalStrategy::Partition { .. } => "partition".to_owned(),
            IncrementalStrategy::TimeWindow { .. } => "time_window".to_owned(),
        }
    }

    pub fn columns(&self) -> (r: Vec<String>)
        ensures
            r.deep_view() == strategy_columns(self.deep_view()),
    {
        match self {
            IncrementalStrategy::Append => none_of(),
            IncrementalStrategy::Key { columns } => columns.deep_clone(),
            IncrementalStrategy::Partition { columns } => columns.deep_clone(),
            IncrementalStrategy::TimeWindow { column, .. } => crate::text::one_of(column.clone()),
        }
    }
}

/// A native assertion on a model.
#[derive(Clone, Debug, PartialEq, Eq)]
pub enum Assertion {
    Unique { columns: Vec<String> },
    NotNull { columns: Vec<String> },
    /// Any other assertion, by its name.
    Other(String),
}

/// The contents of a [`Assertion`].
pub enum AssertionView {
    Unique { columns: Seq<Seq<char>> },
    NotNull { columns: Seq<Seq<char>> },
    Other(Seq<char>),
}

impl DeepView for Assertion {
    type V = AssertionView;

    open spec fn deep_view(&self) -> AssertionView {
        match self {
            Assertion::Unique { columns } => AssertionView::Unique { columns: columns.deep_view() },
            Assertion::NotNull { columns } => AssertionView::NotNull {
                columns: columns.deep_view(),
            },
            Assertion::Other(value) => AssertionView::Other(value@),
        }
    }
}

impl DeepClone for Assertion {
    fn deep_clone(&self) -> (copy: Self) {
        match self {
            Assertion::Unique { columns } => Assertion::Unique { columns: columns.deep_clone() },
            Assertion::NotNull { columns } => Assertion::NotNull { columns: columns.deep_clone() },
            Assertion::Other(value) => Assertion::Other(value.deep_clone()),
        }
    }
}

/// Whether a column may hold nulls, as far as that is known.
#[derive(Clone, Copy, Debug, PartialEq, Eq, Structural)]
pub enum Nullability {
    Nullable,
    NotNull,
    Unknown,
}

impl DeepView for Nullability {
    type V = Nullability;

    open spec fn deep_view(&self) -> Nullability {
        *self
    }
}

impl DeepClone for Nullability {
    fn deep_clone(&self) -> (copy: Self) {
        *self
    }
}

/// How an output schema changes from the one in place.
#[derive(Clone, Copy, Debug, PartialEq, Eq, Structural)]
pub enum SchemaChangeSafety {
    Safe,
    Review,
    FullRebuildRequired,
    Error,
}

impl DeepView for SchemaChangeSafety {
    type V = SchemaChangeSafety;

    open spec fn deep_view(&self) -> SchemaChangeSafety {
        *self
    }
}

impl DeepClone for SchemaChangeSafety {
    fn deep_clone(&self) -> (copy: Self) {
        *self
    }
}

/// One column of a model's output.
#[derive(Clone, Debug, PartialEq, Eq)]
pub struct SchemaColumn {
    pub name: String,
    pub data_type: DataType,
    pub nullability: Nullability,
}

/// The contents of a [`SchemaColumn`].
pub struct SchemaColumnView {
    pub name: Seq<char>,
    pub data_type: DataTypeView,
    pub nullability: Nullability,
}

impl DeepView for SchemaColumn {
    type V = SchemaColumnView;

    open spec fn deep_view(&self) -> SchemaColumnView {
        SchemaColumnView {
            name: self.name@,
            data_type: self.data_type.deep_view(),
            nullability: self.nullability,
        }
    }
}

impl DeepClone for SchemaColumn {
    fn deep_clone(&self) -> (copy: Self) {
        SchemaColumn {
            name: self.name.deep_clone(),
            data_type: self.data_type.deep_clone(),
            nullability: self.nullability,
        }
    }
}

/// A model's output schema; `columns` means something only where it is known.
#[derive(Clone, Debug, PartialEq, Eq)]
pub struct ModelSchema {
    pub known: bool,
    pub columns: Vec<SchemaColumn>,
}

/// The contents of a [`ModelSchema`].
pub struct ModelSchemaView {
    pub known: bool,
    pub columns: Seq<SchemaColumnView>,
}

impl DeepView for ModelSchema {
    type V = ModelSchemaView;

    open spec fn deep_view(&self) -> ModelSchemaView {
        ModelSchemaView {
            known: self.known,
            columns: self.columns.deep_view(),
        }
    }
}

impl DeepClone for ModelSchema {
    fn deep_clone(&self) -> (copy: Self) {
        ModelSchema {
            known: self.known,
            columns: self.columns.deep_clone(),
        }
    }
}

/// A model's content-addressed version and the components it is made of.
#[derive(Clone, Debug, Default, PartialEq, Eq)]
pub struct ModelVersion {
    pub hash: String,
    pub sql_hash: String,
    pub config_hash: String,
    pub contract_hash: String,
    pub dependency_hash: String,
    pub source_state_hash: String,
    pub compiler_version: String,
    pub target_hash: String,
}

/// The contents of a [`ModelVersion`].
pub struct ModelVersionView {
    pub hash: Seq<char>,
    pub sql_hash: Seq<char>,
    pub config_hash: Seq<char>,
    pub contract_hash: Seq<char>,
    pub dependency_hash: Seq<char>,
    pub source_state_hash: Seq<char>,
    pub compiler_version: Seq<char>,
    pub target_hash: Seq<char>,
}

impl DeepView for ModelVersion {
    type V = ModelVersionView;

    open spec fn deep_view(&self) -> ModelVersionView {
        ModelVersionView {
            hash: self.hash@,
            sql_hash: self.sql_hash@,
            config_hash: self.config_hash@,
            contract_hash: self.contract_hash@,
            dependency_hash: self.dependency_hash@,
            source_state_hash: self.source_state_hash@,
            compiler_version: self.compiler_version@,
            target_hash: self.target_hash@,
        }
    }
}

impl DeepClone for ModelVersion {
    fn deep_clone(&self) -> (copy: Self) {
        ModelVersion {
            hash: self.hash.deep_clone(),
            sql_hash: self.sql_hash.deep_clone(),
            config_hash: self.config_hash.deep_clone(),
            contract_hash: self.contract_hash.deep_clone(),
            dependency_hash: self.dependency_hash.deep_clone(),
            source_state_hash: self.source_state_hash.deep_clone(),
            compiler_version: self.compiler_version.deep_clone(),
            target_hash: self.target_hash.deep_clone(),
        }
    }
}

/// The named inputs of a version: the version of each dependency and the
/// observed state of each source.
#[derive(Clone, Debug, PartialEq, Eq)]
pub struct VersionDetail {
    pub dependencies: NameMap<String>,
    pub sources: NameMap<String>,
}

/// The contents of a [`VersionDetail`].
pub struct VersionDetailView {
    pub dependencies: Seq<(Seq<char>, Seq<char>)>,
    pub sources: Seq<(Seq<char>, Seq<char>)>,
}

impl DeepView for VersionDetail {
    type V = VersionDetailView;

    open spec fn deep_view(&self) -> VersionDetailView {
        VersionDetailView {
            dependencies: self.dependencies.deep_view(),
            sources: self.sources.deep_view(),
        }
    }
}

impl DeepClone for VersionDetail {
    fn deep_clone(&self) -> (copy: Self) {
        VersionDetail {
            dependencies: self.dependencies.deep_clone(),
            sources: self.sources.deep_clone(),
        }
    }
}

/// A relation outside the workspace, as a model names it.
#[derive(Clone, Debug, PartialEq, Eq)]
pub struct SourceId {
    pub catalog: Option<String>,
    pub schema: Option<String>,
    pub table: String,
}

/// The contents of a [`SourceId`].
pub struct SourceIdView {
    pub catalog: Option<Seq<char>>,
    pub schema: Option<Seq<char>>,
    pub table: Seq<char>,
}

impl DeepView for SourceId {
    type V = SourceIdView;

    open spec fn deep_view(&self) -> SourceIdView {
        SourceIdView {
            catalog: self.catalog.deep_view(),
            schema: self.schema.deep_view(),
            table: self.table@,
        }
    }
}

impl DeepClone for SourceId {
    fn deep_clone(&self) -> (copy: Self) {
        SourceId {
            catalog: self.catalog.deep_clone(),
            schema: self.schema.deep_clone(),
            table: self.table.deep_clone(),
        }
    }
}

/// The dotted name of a source: the parts that were written.
pub open spec fn source_text(source: SourceIdView) -> Seq<char> {
    let local = match source.schema {
        Some(schema) => schema + "."@ + source.table,
        None => source.table,
    };
    match source.catalog {
        Some(catalog) => catalog + "."@ + local,
        None => local,
    }
}

impl SourceId {
    pub fn logical_name(&self) -> (r: String)
        ensures
            r@ == source_text(self.deep_view()),
    {
        let local: String = match &self.schema {
            Some(schema) => cat3(schema.as_str(), ".", self.table.as_str()),
            None => self.table.clone(),
        };
        match &self.catalog {
            Some(catalog) => cat3(catalog.as_str(), ".", local.as_str()),
            None => local,
        }
    }
}

/// How far two columns' values may lie apart and still count as equal, each
/// bound as a SQL number.
#[derive(Clone, Debug, PartialEq, Eq)]
pub struct ColumnTolerance {
    pub absolute: Option<String>,
    pub relative: Option<String>,
}

/// The contents of a [`ColumnTolerance`].
pub struct ColumnToleranceView {
    pub absolute: Option<Seq<char>>,
    pub relative: Option<Seq<char>>,
}

impl DeepView for ColumnTolerance {
    type V = ColumnToleranceView;

    open spec fn deep_view(&self) -> ColumnToleranceView {
        ColumnToleranceView {
            absolute: self.absolute.deep_view(),
            relative: self.relative.deep_view(),
        }
    }
}

impl DeepClone for ColumnTolerance {
    fn deep_clone(&self) -> (copy: Self) {
        ColumnTolerance {
            absolute: self.absolute.deep_clone(),
            relative: self.relative.deep_clone(),
        }
    }
}

/// Declarative diff policy. The largest changed fraction is kept as it was
/// written; what a measured fraction comes to is decided where it is measured.
#[derive(Clone, Debug, PartialEq, Eq)]
pub struct DiffPolicy {
    pub max_added_rows: Option<i64>,
    pub max_removed_rows: Option<i64>,
    pub max_modified_rows: Option<i64>,
    pub max_changed_fraction: Option<String>,
    pub require_keyed_diff: bool,
    pub require_full_diff: bool,
    pub tolerances: NameMap<ColumnTolerance>,
}

/// The contents of a [`DiffPolicy`].
pub struct DiffPolicyView {
    pub max_added_rows: Option<i64>,
    pub max_removed_rows: Option<i64>,
    pub max_modified_rows: Option<i64>,
    pub max_changed_fraction: Option<Seq<char>>,
    pub require_keyed_diff: bool,
    pub require_full_diff: bool,
    pub tolerances: Seq<(Seq<char>, ColumnToleranceView)>,
}

impl DeepView for DiffPolicy {
    type V = DiffPolicyView;

    open spec fn deep_view(&self) -> DiffPolicyView {
        DiffPolicyView {
            max_added_rows: self.max_added_rows.deep_view(),
            max_removed_rows: self.max_removed_rows.deep_view(),
            max_modified_rows: self.max_modified_rows.deep_view(),
            max_changed_fraction: self.max_changed_fraction.deep_view(),
            require_keyed_diff: self.require_keyed_diff,
            require_full_diff: self.require_full_diff,
            tolerances: self.tolerances.deep_view(),
        }
    }
}

impl DeepClone for DiffPolicy {
    fn deep_clone(&self) -> (copy: Self) {
        DiffPolicy {
            max_added_rows: self.max_added_rows.deep_clone(),
            max_removed_rows: self.max_removed_rows.deep_clone(),
            max_modified_rows: self.max_modified_rows.deep_clone(),
            max_changed_fraction: self.max_changed_fraction.deep_clone(),
            require_keyed_diff: self.require_keyed_diff,
            require_full_diff: self.require_full_diff,
            tolerances: self.tolerances.deep_clone(),
        }
    }
}

impl Default for DiffPolicy {
    fn default() -> (policy: Self)
        ensures
            policy.deep_view() == no_policy(),
    {
        DiffPolicy {
            max_added_rows: None,
            max_removed_rows: None,
            max_modified_rows: None,
            max_changed_fraction: None,
            require_keyed_diff: false,
            require_full_diff: false,
            tolerances: NameMap::new(),
        }
    }
}

/// The policy that asks for nothing.
pub open spec fn no_policy() -> DiffPolicyView {
    DiffPolicyView {
        max_added_rows: None,
        max_removed_rows: None,
        max_modified_rows: None,
        max_changed_fraction: None,
        require_keyed_diff: false,
        require_full_diff: false,
        tolerances: Seq::empty(),
    }
}

/// A model's configuration.
#[derive(Clone, Debug, PartialEq, Eq)]
pub struct ModelConfig {
    pub materialization: Materialization,
    pub incremental: Option<IncrementalStrategy>,
    pub diff: Option<DiffPolicy>,
}

/// The contents of a [`ModelConfig`].
pub struct ModelConfigView {
    pub materialization: Materialization,
    pub incremental: Option<IncrementalStrategyView>,
    pub diff: Option<DiffPolicyView>,
}

impl DeepView for ModelConfig {
    type V = ModelConfigView;

    open spec fn deep_view(&self) -> ModelConfigView {
        ModelConfigView {
            materialization: self.materialization,
            incremental: self.incremental.deep_view(),
            diff: self.diff.deep_view(),
        }
    }
}

impl DeepClone for ModelConfig {
    fn deep_clone(&self) -> (copy: Self) {
        ModelConfig {
            materialization: self.materialization,
            incremental: self.incremental.deep_clone(),
            diff: self.diff.deep_clone(),
        }
    }
}

/// A compiled model. Models are named by their logical names.
#[derive(Clone, Debug, PartialEq, Eq)]
pub struct CompiledModel {
    pub id: String,
    pub target: Relation,
    pub config: ModelConfig,
    pub version: ModelVersion,
    pub version_detail: VersionDetail,
    pub schema: ModelSchema,
    pub contract: Option<ModelContract>,
    pub assertions: Vec<Assertion>,
    /// The workspace models this one reads.
    pub model_dependencies: Vec<String>,
    /// The external relations this one reads.
    pub source_dependencies: Vec<SourceId>,
    pub compiled_sql: String,
}

/// The contents of a [`CompiledModel`].
pub struct CompiledModelView {
    pub id: Seq<char>,
    pub target: RelationView,
    pub config: ModelConfigView,
    pub version: ModelVersionView,
    pub version_detail: VersionDetailView,
    pub schema: ModelSchemaView,
    pub contract: Option<ModelContractView>,
    pub assertions: Seq<AssertionView>,
    pub model_dependencies: Seq<Seq<char>>,
    pub source_dependencies: Seq<SourceIdView>,
    pub compiled_sql: Seq<char>,
}

impl DeepView for CompiledModel {
    type V = CompiledModelView;

    open spec fn deep_view(&self) -> CompiledModelView {
        CompiledModelView {
            id: self.id@,
            target: self.target.deep_view(),
            config: self.config.deep_view(),
            version: self.version.deep_view(),
            version_detail: self.version_detail.deep_view(),
            schema: self.schema.deep_view(),
            contract: self.contract.deep_view(),
            assertions: self.assertions.deep_view(),
            model_dependencies: self.model_dependencies.deep_view(),
            source_dependencies: self.source_dependencies.deep_view(),
            compiled_sql: self.compiled_sql@,
        }
    }
}

impl DeepClone for CompiledModel {
    fn deep_clone(&self) -> (copy: Self) {
        CompiledModel {
            id: self.id.deep_clone(),
            target: self.target.deep_clone(),
            config: self.config.deep_clone(),
            version: self.version.deep_clone(),
            version_detail: self.version_detail.deep_clone(),
            schema: self.schema.deep_clone(),
            contract: self.contract.deep_clone(),
            assertions: self.assertions.deep_clone(),
            model_dependencies: self.model_dependencies.deep_clone(),
            source_dependencies: self.source_dependencies.deep_clone(),
            compiled_sql: self.compiled_sql.deep_clone(),
        }
    }
}

/// A CSV seed discovered in the workspace.
#[derive(Clone, Debug, PartialEq, Eq)]
pub struct CompiledSeed {
    pub name: String,
    /// Workspace-relative path of the CSV.
    pub path: String,
    pub content_hash: String,
    pub catalog: Option<String>,
    pub schema: Option<String>,
    pub table: String,
}

/// The contents of a [`CompiledSeed`].
pub struct CompiledSeedView {
    pub name: Seq<char>,
    pub path: Seq<char>,
    pub content_hash: Seq<char>,
    pub catalog: Option<Seq<char>>,
    pub schema: Option<Seq<char>>,
    pub table: Seq<char>,
}

impl DeepView for CompiledSeed {
    type V = CompiledSeedView;

    open spec fn deep_view(&self) -> CompiledSeedView {
        CompiledSeedView {
            name: self.name@,
            path: self.path@,
            content_hash: self.content_hash@,
            catalog: self.catalog.deep_view(),
            schema: self.schema.deep_view(),
            table: self.table@,
        }
    }
}

impl DeepClone for CompiledSeed {
    fn deep_clone(&self) -> (copy: Self) {
        CompiledSeed {
            name: self.name.deep_clone(),
            path: self.path.deep_clone(),
            content_hash: self.content_hash.deep_clone(),
            catalog: self.catalog.deep_clone(),
            schema: self.schema.deep_clone(),
            table: self.table.deep_clone(),
        }
    }
}

/// The relation a seed loads into, given what to fall back on.
pub open spec fn seed_target(
    seed: CompiledSeedView,
    default_catalog: Option<Seq<char>>,
    fallback_schema: Seq<char>,
) -> RelationView {
    RelationView {
        catalog: if seed.catalog is Some {
            seed.catalog
        } else {
            default_catalog
        },
        schema: match seed.schema {
            Some(schema) => schema,
            None => fallback_schema,
        },
        table: seed.table,
    }
}

impl CompiledSeed {
    pub fn relation(&self, default_catalog: Option<&str>, fallback_schema: &str) -> (r: Relation)
        ensures
            r.deep_view() == seed_target(
                self.deep_view(),
                default_catalog.deep_view(),
                fallback_schema@,
            ),
    {
        Relation {
            catalog: match &self.catalog {
                Some(catalog) => Some(catalog.clone()),
                None => match default_catalog {
                    Some(catalog) => Some(catalog.to_owned()),
                    None => None,
                },
            },
            schema: match &self.schema {
                Some(schema) => schema.clone(),
                None => fallback_schema.to_owned(),
            },
            table: self.table.clone(),
        }
    }
}

/// A compiled test.
#[derive(Clone, Debug, PartialEq, Eq)]
pub struct CompiledTest {
    pub id: String,
    pub generated: bool,
    pub targets: Vec<String>,
    pub sources: Vec<SourceId>,
    pub compiled_sql: String,
}

/// The contents of a [`CompiledTest`].
pub struct CompiledTestView {
    pub id: Seq<char>,
    pub generated: bool,
    pub targets: Seq<Seq<char>>,
    pub sources: Seq<SourceIdView>,
    pub compiled_sql: Seq<char>,
}

impl DeepView for CompiledTest {
    type V = CompiledTestView;

    open spec fn deep_view(&self) -> CompiledTestView {
        CompiledTestView {
            id: self.id@,
            generated: self.generated,
            targets: self.targets.deep_view(),
            sources: self.sources.deep_view(),
            compiled_sql: self.compiled_sql@,
        }
    }
}

impl DeepClone for CompiledTest {
    fn deep_clone(&self) -> (copy: Self) {
        CompiledTest {
            id: self.id.deep_clone(),
            generated: self.generated,
            targets: self.targets.deep_clone(),
            sources: self.sources.deep_clone(),
            compiled_sql: self.compiled_sql.deep_clone(),
        }
    }
}

/// The catalog and schema that unqualified names resolve in.
#[derive(Clone, Debug, PartialEq, Eq)]
pub struct Defaults {
    pub catalog: Option<String>,
    pub schema: Option<String>,
}

/// The contents of a [`Defaults`].
pub struct DefaultsView {
    pub catalog: Option<Seq<char>>,
    pub schema: Option<Seq<char>>,
}

impl DeepView for Defaults {
    type V = DefaultsView;

    open spec fn deep_view(&self) -> DefaultsView {
        DefaultsView {
            catalog: self.catalog.deep_view(),
            schema: self.schema.deep_view(),
        }
    }
}

impl DeepClone for Defaults {
    fn deep_clone(&self) -> (copy: Self) {
        Defaults {
            catalog: self.catalog.deep_clone(),
            schema: self.schema.deep_clone(),
        }
    }
}

/// A compiled workspace.
#[derive(Clone, Debug, PartialEq, Eq)]
pub struct Compilation {
    /// Whether it compiled without errors.
    pub ok: bool,
    pub models: Vec<CompiledModel>,
    pub seeds: Vec<CompiledSeed>,
    pub tests: Vec<CompiledTest>,
    pub defaults: Defaults,
    /// The models with every dependency ahead of its dependents; absent where
    /// the dependencies are cyclic.
    pub topological_order: Option<Vec<String>>,
    pub diagnostics: Vec<Diagnostic>,
    /// Fingerprint of the canonical lineage graph.
    pub lineage_hash: String,
    /// The semantics the compiler implements; part of every version.
    pub compiler_semantics_version: String,
}

/// The contents of a [`Compilation`].
pub struct CompilationView {
    pub ok: bool,
    pub models: Seq<CompiledModelView>,
    pub seeds: Seq<CompiledSeedView>,
    pub tests: Seq<CompiledTestView>,
    pub defaults: DefaultsView,
    pub topological_order: Option<Seq<Seq<char>>>,
    pub diagnostics: Seq<DiagnosticView>,
    pub lineage_hash: Seq<char>,
    pub compiler_semantics_version: Seq<char>,
}

impl DeepView for Compilation {
    type V = CompilationView;

    open spec fn deep_view(&self) -> CompilationView {
        CompilationView {
            ok: self.ok,
            models: self.models.deep_view(),
            seeds: self.seeds.deep_view(),
            tests: self.tests.deep_view(),
            defaults: self.defaults.deep_view(),
            topological_order: self.topological_order.deep_view(),
            diagnostics: self.diagnostics.deep_view(),
            lineage_hash: self.lineage_hash@,
            compiler_semantics_version: self.compiler_semantics_version@,
        }
    }
}

impl DeepClone for Compilation {
    fn deep_clone(&self) -> (copy: Self) {
        Compilation {
            ok: self.ok,
            models: self.models.deep_clone(),
            seeds: self.seeds.deep_clone(),
            tests: self.tests.deep_clone(),
            defaults: self.defaults.deep_clone(),
            topological_order: self.topological_order.deep_clone(),
            diagnostics: self.diagnostics.deep_clone(),
            lineage_hash: self.lineage_hash.deep_clone(),
            compiler_semantics_version: self.compiler_semantics_version.deep_clone(),
        }
    }
}

/// Picks the model of a given name.
pub open spec fn is_model(id: Seq<char>) -> spec_fn(CompiledModelView) -> bool {
    |model: CompiledModelView| model.id == id
}

/// The model of a given name.
pub open spec fn model_named(models: Seq<CompiledModelView>, id: Seq<char>) -> Option<
    CompiledModelView,
> {
    first_where(models, is_model(id))
}

/// Picks the seed of a given name.
pub open spec fn is_seed(name: Seq<char>) -> spec_fn(CompiledSeedView) -> bool {
    |seed: CompiledSeedView| seed.name == name
}

/// The seed of a given name.
pub open spec fn seed_named(seeds: Seq<CompiledSeedView>, name: Seq<char>) -> Option<
    CompiledSeedView,
> {
    first_where(seeds, is_seed(name))
}

impl Compilation {
    /// The model of a given name.
    pub fn model(&self, id: &str) -> (r: Option<&CompiledModel>)
        ensures
            r.deep_view() == model_named(self.deep_view().models, id@),
    {
        let ghost models = self.models.deep_view();
        let ghost p = is_model(id@);
        proof {
            lemma_first_ends(models, p);
        }
        for i in 0..self.models.len()
            invariant
                models == self.models.deep_view(),
                p == is_model(id@),
                first_where(models, p) == first_where(models.skip(i as int), p),
        {
            proof {
                lemma_first_step(models, i as int, p);
            }
            if same(self.models[i].id.as_str(), id) {
                return Some(&self.models[i]);
            }
        }
        proof {
            lemma_first_ends(models, p);
        }
        None
    }

    /// The seed of a given name.
    pub fn seed(&self, name: &str) -> (r: Option<&CompiledSeed>)
        ensures
            r.deep_view() == seed_named(self.deep_view().seeds, name@),
    {
        let ghost seeds = self.seeds.deep_view();
        let ghost p = is_seed(name@);
        proof {
            lemma_first_ends(seeds, p);
        }
        for i in 0..self.seeds.len()
            invariant
                seeds == self.seeds.deep_view(),
                p == is_seed(name@),
                first_where(seeds, p) == first_where(seeds.skip(i as int), p),
        {
            proof {
                lemma_first_step(seeds, i as int, p);
            }
            if same(self.seeds[i].name.as_str(), name) {
                return Some(&self.seeds[i]);
            }
        }
        proof {
            lemma_first_ends(seeds, p);
        }
        None
    }
}

} // verus!
