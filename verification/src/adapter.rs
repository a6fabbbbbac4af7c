//! What crosses the adapter boundary: the answers of a warehouse, as plain
//! data.

use vstd::prelude::*;

use crate::error::{AdapterError, AdapterErrorView};
use crate::text::{cat2, DeepClone};

verus! {

/// The result of executing SQL.
#[derive(Clone, Debug, Default, PartialEq, Eq)]
pub struct QueryResult {
    /// Warehouse query identifier, when available.
    pub query_id: Option<String>,
    pub columns: Vec<String>,
    pub rows: Vec<Vec<String>>,
    /// Number of rows returned, when known.
    pub row_count: u64,
}

/// The contents of a [`QueryResult`].
pub struct QueryResultView {
    pub query_id: Option<Seq<char>>,
    pub columns: Seq<Seq<char>>,
    pub rows: Seq<Seq<Seq<char>>>,
    pub row_count: u64,
}

impl DeepView for QueryResult {
    type V = QueryResultView;

    open spec fn deep_view(&self) -> QueryResultView {
        QueryResultView {
            query_id: self.query_id.deep_view(),
            columns: self.columns.deep_view(),
            rows: self.rows.deep_view(),
            row_count: self.row_count,
        }
    }
}

impl DeepClone for QueryResult {
    fn deep_clone(&self) -> (copy: Self) {
        QueryResult {
            query_id: self.query_id.deep_clone(),
            columns: self.columns.deep_clone(),
            rows: self.rows.deep_clone(),
            row_count: self.row_count,
        }
    }
}

/// Basic column metadata.
#[derive(Clone, Debug, PartialEq, Eq)]
pub struct ColumnInfo {
    pub name: String,
    pub data_type: String,
    pub nullable: bool,
}

/// The contents of a [`ColumnInfo`].
pub struct ColumnInfoView {
    pub name: Seq<char>,
    pub data_type: Seq<char>,
    pub nullable: bool,
}

impl DeepView for ColumnInfo {
    type V = ColumnInfoView;

    open spec fn deep_view(&self) -> ColumnInfoView {
        ColumnInfoView {
            name: self.name@,
            data_type: self.data_type@,
            nullable: self.nullable,
        }
    }
}

impl DeepClone for ColumnInfo {
    fn deep_clone(&self) -> (copy: Self) {
        ColumnInfo {
            name: self.name.deep_clone(),
            data_type: self.data_type.deep_clone(),
            nullable: self.nullable,
        }
    }
}

/// A request to provision a warehouse catalog for a Nessie reference.
#[derive(Clone, Debug, Default, PartialEq, Eq)]
pub struct CatalogRequest {
    pub catalog: String,
    /// Nessie branch the catalog should read and write.
    pub reference: Option<String>,
    /// Nessie API base URI, e.g. `http://nessie:19120`.
    pub nessie_uri: Option<String>,
    /// Warehouse location, e.g. `local:///tmp/warehouse` or `s3://bucket/wh`.
    pub warehouse: Option<String>,
}

/// The contents of a [`CatalogRequest`].
pub struct CatalogRequestView {
    pub catalog: Seq<char>,
    pub reference: Option<Seq<char>>,
    pub nessie_uri: Option<Seq<char>>,
    pub warehouse: Option<Seq<char>>,
}

impl DeepView for CatalogRequest {
    type V = CatalogRequestView;

    open spec fn deep_view(&self) -> CatalogRequestView {
        CatalogRequestView {
            catalog: self.catalog@,
            reference: self.reference.deep_view(),
            nessie_uri: self.nessie_uri.deep_view(),
            warehouse: self.warehouse.deep_view(),
        }
    }
}

impl DeepClone for CatalogRequest {
    fn deep_clone(&self) -> (copy: Self) {
        CatalogRequest {
            catalog: self.catalog.deep_clone(),
            reference: self.reference.deep_clone(),
            nessie_uri: self.nessie_uri.deep_clone(),
            warehouse: self.warehouse.deep_clone(),
        }
    }
}

/// What provisioning established about a requested catalog.
///
/// The distinction matters for branch isolation: a candidate catalog is
/// expected to be bound to the candidate's Nessie reference, but an existing
/// catalog's configured ref cannot be read back, so "the catalog exists" must
/// never silently mean "the catalog is correct".
#[derive(Clone, Copy, Debug, PartialEq, Eq, Structural)]
pub enum CatalogStatus {
    /// The catalog was created by this call, bound to the requested reference.
    Created,
    /// The catalog already existed; which reference it serves could not be
    /// proved. The caller must establish the binding from recorded evidence,
    /// or refuse to use it.
    Unverified,
    /// The adapter does not provision catalogs: there is nothing to verify.
    Unmanaged,
}

impl DeepView for CatalogStatus {
    type V = CatalogStatus;

    open spec fn deep_view(&self) -> CatalogStatus {
        *self
    }
}

impl DeepClone for CatalogStatus {
    fn deep_clone(&self) -> (copy: Self) {
        *self
    }
}

impl Default for CatalogStatus {
    fn default() -> (status: Self)
        ensures
            status == CatalogStatus::Unverified,
    {
        CatalogStatus::Unverified
    }
}

/// The failure of an adapter that cannot ingest CSV seeds.
pub fn unsupported_csv(adapter_name: &str) -> (error: AdapterError)
    ensures
        error.deep_view() == (AdapterErrorView {
            code: "UNSUPPORTED"@,
            message: adapter_name@ + " does not support CSV seeds"@,
            retryable: false,
        }),
{
    AdapterError::new("UNSUPPORTED", cat2(adapter_name, " does not support CSV seeds").as_str())
}

} // verus!
