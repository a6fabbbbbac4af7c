//! Where sources and seeds live, and what state a source is in.
//!
//! The state of an external source is observed by the adapter (for Iceberg
//! this is the latest snapshot id). A source backed by a CSV seed takes the
//! seed's content hash as its state, so that editing the seed invalidates the
//! models that read it.

use vstd::prelude::*;

use crate::error::{AdapterError, AdapterErrorView, EngineError, EngineErrorView};
use crate::names::{with_name, NameMap};
use crate::seqs::{first_where, lemma_first_ends, lemma_first_step};
use crate::text::{cat2, same, DeepClone};
use crate::workspace::{
    relation_text, seed_target, source_text, CompiledSeed, CompiledSeedView, Relation,
    RelationView, SourceId, SourceIdView,
};

verus! {

/// The schema an adapter targets when a project configures none.
pub open spec fn default_schema_of(adapter: Seq<char>) -> Option<Seq<char>> {
    if adapter == "duckdb"@ {
        Some("main"@)
    } else {
        None
    }
}

/// The schema an adapter targets when a project configures no default.
/// DuckDB defaults to `main`; other adapters fall back to `default`.
pub fn adapter_default_schema(adapter_name: &str) -> (r: Option<&'static str>)
    ensures
        r.deep_view() == default_schema_of(adapter_name@),
{
    if same(adapter_name, "duckdb") {
        Some("main")
    } else {
        None
    }
}

/// The first of two that is there.
pub open spec fn or_else<A>(first: Option<A>, second: Option<A>) -> Option<A> {
    if first is Some {
        first
    } else {
        second
    }
}

/// The configured default schema, else the adapter's own.
pub open spec fn schema_in_force(
    configured: Option<Seq<char>>,
    adapter: Seq<char>,
) -> Option<Seq<char>> {
    or_else(configured, default_schema_of(adapter))
}

pub fn schema_for<'a>(configured: Option<&'a str>, adapter_name: &str) -> (r: Option<&'a str>)
    ensures
        r.deep_view() == schema_in_force(configured.deep_view(), adapter_name@),
{
    match configured {
        Some(schema) => Some(schema),
        None => adapter_default_schema(adapter_name),
    }
}

/// Where a source's relation is.
pub open spec fn source_relation(
    source: SourceIdView,
    default_catalog: Option<Seq<char>>,
    default_schema: Option<Seq<char>>,
) -> RelationView {
    RelationView {
        catalog: or_else(source.catalog, default_catalog),
        schema: match or_else(source.schema, default_schema) {
            Some(schema) => schema,
            None => "default"@,
        },
        table: source.table,
    }
}

/// The relation a source names, its missing parts taken from the defaults.
pub fn relation_for_source(
    source: &SourceId,
    default_catalog: Option<&str>,
    default_schema: Option<&str>,
) -> (r: Relation)
    ensures
        r.deep_view() == source_relation(
            source.deep_view(),
            default_catalog.deep_view(),
            default_schema.deep_view(),
        ),
{
    Relation {
        catalog: match &source.catalog {
            Some(catalog) => Some(catalog.clone()),
            None => match default_catalog {
                Some(catalog) => Some(catalog.to_owned()),
                None => None,
            },
        },
        schema: match &source.schema {
            Some(schema) => schema.clone(),
            None => match default_schema {
                Some(schema) => schema.to_owned(),
                None => "default".to_owned(),
            },
        },
        table: source.table.clone(),
    }
}

/// Where a seed is loaded.
pub open spec fn seed_place(
    seed: CompiledSeedView,
    default_catalog: Option<Seq<char>>,
    default_schema: Option<Seq<char>>,
    adapter: Seq<char>,
) -> RelationView {
    seed_target(
        seed,
        default_catalog,
        match schema_in_force(default_schema, adapter) {
            Some(schema) => schema,
            None => "default"@,
        },
    )
}

/// The physical relation a seed loads into.
///
/// The seed's compiled schema already reflects its configuration and the
/// workspace defaults; the adapter default is the last fallback.
pub fn seed_relation(
    seed: &CompiledSeed,
    default_catalog: Option<&str>,
    default_schema: Option<&str>,
    adapter_name: &str,
) -> (r: Relation)
    ensures
        r.deep_view() == seed_place(
            seed.deep_view(),
            default_catalog.deep_view(),
            default_schema.deep_view(),
            adapter_name@,
        ),
{
    let fallback: &str = match schema_for(default_schema, adapter_name) {
        Some(schema) => schema,
        None => "default",
    };
    seed.relation(default_catalog, fallback)
}

/// Picks the seeds that load into the relation of a given name.
pub open spec fn loads_into(
    name: Seq<char>,
    default_catalog: Option<Seq<char>>,
    default_schema: Option<Seq<char>>,
    adapter: Seq<char>,
) -> spec_fn(CompiledSeedView) -> bool {
    |seed: CompiledSeedView|
        relation_text(seed_place(seed, default_catalog, default_schema, adapter)) == name
}

/// The seed whose target relation matches `relation`, if any.
pub fn seed_for_relation<'a>(
    seeds: &'a Vec<CompiledSeed>,
    relation: &Relation,
    default_catalog: Option<&str>,
    default_schema: Option<&str>,
    adapter_name: &str,
) -> (r: Option<&'a CompiledSeed>)
    ensures
        r.deep_view() == first_where(
            seeds.deep_view(),
            loads_into(
                relation_text(relation.deep_view()),
                default_catalog.deep_view(),
                default_schema.deep_view(),
                adapter_name@,
            ),
        ),
{
    let wanted: String = relation.display();
    let ghost views = seeds.deep_view();
    let ghost p = loads_into(
        wanted@,
        default_catalog.deep_view(),
        default_schema.deep_view(),
        adapter_name@,
    );
    proof {
        lemma_first_ends(views, p);
    }
    for i in 0..seeds.len()
        invariant
            wanted@ == relation_text(relation.deep_view()),
            views == seeds.deep_view(),
            p == loads_into(
                wanted@,
                default_catalog.deep_view(),
                default_schema.deep_view(),
                adapter_name@,
            ),
            first_where(views, p) == first_where(views.skip(i as int), p),
    {
        proof {
            lemma_first_step(views, i as int, p);
        }
        let target: String = seed_relation(
            &seeds[i],
            default_catalog,
            default_schema,
            adapter_name,
        ).display();
        if same(target.as_str(), wanted.as_str()) {
            return Some(&seeds[i]);
        }
    }
    proof {
        lemma_first_ends(views, p);
    }
    None
}

/// What the adapter reported of a source's state.
#[derive(Clone, Debug, PartialEq, Eq)]
pub enum SourceReading {
    /// The source is in this state.
    State(String),
    /// The adapter cannot tell.
    Unobserved,
    /// The adapter failed.
    Failed(AdapterError),
}

/// The contents of a [`SourceReading`].
pub enum SourceReadingView {
    State(Seq<char>),
    Unobserved,
    Failed(AdapterErrorView),
}

impl DeepView for SourceReading {
    type V = SourceReadingView;

    open spec fn deep_view(&self) -> SourceReadingView {
        match self {
            SourceReading::State(value) => SourceReadingView::State(value@),
            SourceReading::Unobserved => SourceReadingView::Unobserved,
            SourceReading::Failed(value) => SourceReadingView::Failed(value.deep_view()),
        }
    }
}

impl DeepClone for SourceReading {
    fn deep_clone(&self) -> (copy: Self) {
        match self {
            SourceReading::State(value) => SourceReading::State(value.deep_clone()),
            SourceReading::Unobserved => SourceReading::Unobserved,
            SourceReading::Failed(value) => SourceReading::Failed(value.deep_clone()),
        }
    }
}

/// Where unqualified names resolve, and which adapter is in use.
#[derive(Clone, Debug, PartialEq, Eq)]
pub struct Places {
    pub catalog: Option<String>,
    pub schema: Option<String>,
    pub adapter: String,
}

/// The contents of a [`Places`].
pub struct PlacesView {
    pub catalog: Option<Seq<char>>,
    pub schema: Option<Seq<char>>,
    pub adapter: Seq<char>,
}

impl DeepView for Places {
    type V = PlacesView;

    open spec fn deep_view(&self) -> PlacesView {
        PlacesView {
            catalog: self.catalog.deep_view(),
            schema: self.schema.deep_view(),
            adapter: self.adapter@,
        }
    }
}

impl DeepClone for Places {
    fn deep_clone(&self) -> (copy: Self) {
        Places {
            catalog: self.catalog.deep_clone(),
            schema: self.schema.deep_clone(),
            adapter: self.adapter.deep_clone(),
        }
    }
}

/// The seed that backs a source, if any.
pub open spec fn backing_seed(
    source: SourceIdView,
    seeds: Seq<CompiledSeedView>,
    places: PlacesView,
) -> Option<CompiledSeedView> {
    first_where(
        seeds,
        loads_into(
            relation_text(source_relation(source, places.catalog, places.schema)),
            places.catalog,
            places.schema,
            places.adapter,
        ),
    )
}

/// A borrowed optional text.
pub fn borrowed(text: &Option<String>) -> (r: Option<&str>)
    ensures
        r.deep_view() == text.deep_view(),
{
    match text {
        Some(value) => Some(value.as_str()),
        None => None,
    }
}

/// The seed that backs a source, if any.
pub fn seed_behind<'a>(source: &SourceId, seeds: &'a Vec<CompiledSeed>, places: &Places) -> (r:
    Option<&'a CompiledSeed>)
    ensures
        r.deep_view() == backing_seed(source.deep_view(), seeds.deep_view(), places.deep_view()),
{
    let catalog: Option<&str> = borrowed(&places.catalog);
    let schema: Option<&str> = borrowed(&places.schema);
    let relation: Relation = relation_for_source(source, catalog, schema);
    seed_for_relation(seeds, &relation, catalog, schema, places.adapter.as_str())
}

/// The states of the sources, by name: a seed's content hash where one backs
/// the source, else what the adapter read. The first failed reading of a
/// source without a seed fails the whole.
pub open spec fn source_states(
    sources: Seq<SourceIdView>,
    readings: Seq<SourceReadingView>,
    seeds: Seq<CompiledSeedView>,
    places: PlacesView,
) -> Result<Seq<(Seq<char>, Seq<char>)>, AdapterErrorView>
    decreases sources.len(),
{
    if sources.len() == 0 {
        Ok(Seq::empty())
    } else {
        match source_states(sources.drop_last(), readings, seeds, places) {
            Err(error) => Err(error),
            Ok(before) => {
                let source = sources.last();
                let name = source_text(source);
                match backing_seed(source, seeds, places) {
                    Some(seed) => Ok(with_name(before, name, "csv:"@ + seed.content_hash)),
                    None => match readings[sources.len() - 1] {
                        SourceReadingView::State(state) => Ok(with_name(before, name, state)),
                        SourceReadingView::Unobserved => Ok(before),
                        SourceReadingView::Failed(error) => Err(error),
                    },
                }
            },
        }
    }
}

/// The state of every source, given the adapter's reading of each. The
/// reading of a source that a seed backs is not looked at.
pub fn collect_source_states(
    sources: &Vec<SourceId>,
    readings: &Vec<SourceReading>,
    seeds: &Vec<CompiledSeed>,
    places: &Places,
) -> (r: Result<NameMap<String>, EngineError>)
    requires
        readings@.len() == sources@.len(),
    ensures
        match source_states(
            sources.deep_view(),
            readings.deep_view(),
            seeds.deep_view(),
            places.deep_view(),
        ) {
            Ok(states) => r matches Ok(map) && map.deep_view() == states,
            Err(error) => r matches Err(e) && e.deep_view() == EngineErrorView::Adapter(error),
        },
{
    let ghost views = sources.deep_view();
    let ghost reads = readings.deep_view();
    let mut states: NameMap<String> = NameMap::new();
    assert(views.take(0) =~= Seq::<SourceIdView>::empty());
    for i in 0..sources.len()
        invariant
            readings@.len() == sources@.len(),
            views == sources.deep_view(),
            reads == readings.deep_view(),
            source_states(views.take(i as int), reads, seeds.deep_view(), places.deep_view())
                == Ok::<Seq<(Seq<char>, Seq<char>)>, AdapterErrorView>(states.deep_view()),
    {
        let ghost grown = views.take(i as int + 1);
        assert(grown.drop_last() =~= views.take(i as int));
        assert(grown.last() == sources@[i as int].deep_view());
        assert(reads[i as int] == readings@[i as int].deep_view());
        let name: String = sources[i].logical_name();
        match seed_behind(&sources[i], seeds, places) {
            Some(seed) => states.insert(name, cat2("csv:", seed.content_hash.as_str())),
            None => match &readings[i] {
                SourceReading::State(state) => states.insert(name, state.clone()),
                SourceReading::Unobserved => {},
                SourceReading::Failed(error) => {
                    proof {
                        lemma_states_fail(
                            views,
                            reads,
                            seeds.deep_view(),
                            places.deep_view(),
                            i as int + 1,
                        );
                    }
                    return Err(EngineError::Adapter(error.deep_clone()));
                },
            },
        }
    }
    assert(views.take(views.len() as int) =~= views);
    Ok(states)
}

proof fn lemma_states_fail(
    sources: Seq<SourceIdView>,
    readings: Seq<SourceReadingView>,
    seeds: Seq<CompiledSeedView>,
    places: PlacesView,
    i: int,
)
    requires
        0 <= i <= sources.len(),
        source_states(sources.take(i), readings, seeds, places) is Err,
    ensures
        source_states(sources, readings, seeds, places) == source_states(
            sources.take(i),
            readings,
            seeds,
            places,
        ),
    decreases sources.len() - i,
{
    if i < sources.len() {
        assert(sources.take(i + 1).drop_last() =~= sources.take(i));
        lemma_states_fail(sources, readings, seeds, places, i + 1);
    } else {
        assert(sources.take(i) =~= sources);
    }
}

} // verus!
