//! The SQL capability as the guest sees it.
//!
//! A guest holds opaque handles into a per-guest [`ResourceTable`]: one per
//! open database connection, one per row cursor.  The engine executes the
//! statements; the functions here make every decision around it — what a
//! parameter binds to, which handle reaches which resource, what a result
//! looks like, and what the statistics say — and their contracts pin those
//! decisions down.

use vstd::prelude::*;
use crate::json::JVal;
use crate::resource::{ResourceHandle, ResourceTable, StaleError};
use crate::sqlsession::{DbError, SqlSession, TransactionResult};
use crate::sqlstats::{
    lower_byte,
    spec_query_kind,
    starts_with_kw,
    query_kind_of,
    QueryCounts,
    QueryKind,
    QueryStats,
};
use crate::sqlvalue::{marshal_value, marshalled, spec_bind, SqlBinding, SqlRow, SqlValue, TypedSqlParam};
use vstd::string::StringSliceAdditionalSpecFns;
use vstd::string::StringExecFns;
use vstd::utf8::encode_utf8;

verus! {

/// A statement with its typed parameters, as the guest sends it.
#[derive(Debug, PartialEq, Eq)]
pub struct EnhancedSqlParams {
    pub sql: String,
    pub params: Vec<TypedSqlParam>,
}

/// What is known about one result column.
#[derive(Debug, PartialEq, Eq)]
pub struct ColumnInfo {
    pub name: String,
    pub column_type: String,
    pub nullable: bool,
    pub primary_key: bool,
    pub auto_increment: bool,
    pub default_value: Option<String>,
}

/// What is known about one index of a table.
#[derive(Debug, PartialEq, Eq)]
pub struct IndexInfo {
    pub name: String,
    pub columns: Vec<String>,
    pub unique: bool,
}

/// The schema of one table: its columns and its indexes.
#[derive(Debug, PartialEq, Eq)]
pub struct TableInfo {
    pub name: String,
    pub columns: Vec<ColumnInfo>,
    pub indexes: Vec<IndexInfo>,
}

/// The input naming a table for introspection calls.
#[derive(Debug, PartialEq, Eq)]
pub struct TableNameInput {
    pub table_name: String,
}

/// The input of calls that take no parameters.
#[derive(Debug, PartialEq, Eq)]
pub struct EmptyInput {
    pub _dummy: Option<String>,
}

/// How one execute or query went.
#[derive(Debug, PartialEq, Eq)]
pub struct QueryMetadata {
    pub execution_time_ms: u64,
    pub rows_returned: u64,
    pub rows_affected: u64,
    pub last_insert_rowid: Option<i64>,
    pub query_plan: Option<String>,
    pub sqlite_version: String,
}

/// Result rows with their column descriptions and metadata.
#[derive(Debug, PartialEq, Eq)]
pub struct EnhancedSqlResult {
    pub data: Vec<JVal>,
    pub columns: Vec<ColumnInfo>,
    pub metadata: QueryMetadata,
}

/// Connection statistics as reported to the guest.
#[derive(Debug, PartialEq, Eq)]
pub struct DatabaseStats {
    pub total_queries: u64,
    pub total_execution_time_ms: u64,
    pub average_execution_time_ms: u64,
    pub query_count_by_type: QueryCounts,
    pub database_size_bytes: u64,
    pub sqlite_version: String,
}

/// The plan the engine reports for a statement.  The engine offers no cost
/// or row estimates, so both are reported as zero.
#[derive(Debug, PartialEq, Eq)]
pub struct QueryExplanation {
    pub query_plan: String,
    pub estimated_cost: u64,
    pub estimated_rows: u64,
    pub sqlite_version: String,
}

/// Bind every parameter of a call following the binding rule.
pub fn bind_params(params: &Vec<TypedSqlParam>) -> (r: Vec<SqlBinding>)
    ensures
        r@.len() == params@.len(),
        forall|i: int| 0 <= i < params@.len() ==> r@[i] == spec_bind(#[trigger] params@[i]),
{
    let mut out: Vec<SqlBinding> = Vec::new();
    let n = params.len();
    for i in 0..n
        invariant
            n == params@.len(),
            out@.len() == i,
            forall|k: int| 0 <= k < i ==> out@[k] == spec_bind(#[trigger] params@[k]),
    {
        out.push(params[i].to_sql());
    }
    out
}

/// A query plan is fetched for SELECT statements only.
pub fn wants_query_plan(sql: &str) -> (r: bool)
    ensures
        r == (spec_query_kind(sql.spec_bytes()) == QueryKind::Select),
{
    let kind = query_kind_of(sql);
    match kind {
        QueryKind::Select => true,
        _ => false,
    }
}

/// The result of an execute call: no rows come back, and the last insert
/// rowid is reported exactly when the statement was an INSERT.
pub fn execute_result(
    sql: &str,
    rows_affected: u64,
    last_insert_rowid: i64,
    execution_time_ms: u64,
    sqlite_version: String,
) -> (r: EnhancedSqlResult)
    ensures
        r.data@.len() == 0,
        r.columns@.len() == 0,
        r.metadata.execution_time_ms == execution_time_ms,
        r.metadata.rows_returned == 0,
        r.metadata.rows_affected == rows_affected,
        r.metadata.last_insert_rowid == if spec_query_kind(sql.spec_bytes())
            == QueryKind::Insert {
            Option::Some(last_insert_rowid)
        } else {
            Option::<i64>::None
        },
        r.metadata.query_plan is None,
        r.metadata.sqlite_version == sqlite_version,
{
    let kind = query_kind_of(sql);
    let rowid = match kind {
        QueryKind::Insert => Option::Some(last_insert_rowid),
        _ => Option::None,
    };
    EnhancedSqlResult {
        data: Vec::new(),
        columns: Vec::new(),
        metadata: QueryMetadata {
            execution_time_ms,
            rows_returned: 0,
            rows_affected,
            last_insert_rowid: rowid,
            query_plan: Option::None,
            sqlite_version,
        },
    }
}

/// The row appears in the result as an object pairing each column name
/// with the marshalled value of that column.
pub open spec fn row_marshalled(columns: Seq<ColumnInfo>, values: Seq<crate::sqlvalue::SqlValue>, r: JVal) -> bool {
    r matches JVal::Obj(fields) && fields@.len() == columns.len() && forall|j: int|
        0 <= j < columns.len() ==> (#[trigger] fields@[j]).0@ == columns[j].name@ && marshalled(
            values[j],
            fields@[j].1,
        )
}

/// Marshal one result row into its JSON object.
pub fn marshal_row(columns: &Vec<ColumnInfo>, row: SqlRow) -> (r: JVal)
    requires
        row.values@.len() == columns@.len(),
    ensures
        row_marshalled(columns@, row.values@, r),
{
    let ghost orig = row.values@;
    let mut vals = row.values;
    let mut fields: Vec<(String, JVal)> = Vec::new();
    let n = columns.len();
    proof {
        assert(vals@ =~= orig.skip(0));
    }
    for i in 0..n
        invariant
            n == columns@.len(),
            orig.len() == n,
            vals@ =~= orig.skip(i as int),
            fields@.len() == i,
            forall|j: int|
                0 <= j < i ==> (#[trigger] fields@[j]).0@ == columns@[j].name@ && marshalled(
                    orig[j],
                    fields@[j].1,
                ),
    {
        let v = vals.remove(0);
        proof {
            assert(orig.skip(i as int)[0] == orig[i as int]);
            assert(orig.skip(i as int).remove(0) =~= orig.skip(i + 1));
        }
        fields.push((columns[i].name.clone(), marshal_value(v)));
    }
    JVal::Obj(fields)
}

/// The result of a query call: every row marshalled in order, the row
/// count, and no write-side metadata.
pub fn query_result(
    columns: Vec<ColumnInfo>,
    rows: Vec<SqlRow>,
    execution_time_ms: u64,
    query_plan: Option<String>,
    sqlite_version: String,
) -> (r: EnhancedSqlResult)
    requires
        forall|i: int| 0 <= i < rows@.len() ==> (#[trigger] rows@[i]).values@.len() == columns@.len(),
        rows@.len() <= u64::MAX,
    ensures
        r.columns == columns,
        r.data@.len() == rows@.len(),
        forall|i: int|
            0 <= i < rows@.len() ==> row_marshalled(columns@, (#[trigger] rows@[i]).values@, r.data@[i]),
        r.metadata.execution_time_ms == execution_time_ms,
        r.metadata.rows_returned == rows@.len(),
        r.metadata.rows_affected == 0,
        r.metadata.last_insert_rowid is None,
        r.metadata.query_plan == query_plan,
        r.metadata.sqlite_version == sqlite_version,
{
    let ghost orig = rows@;
    let mut rows = rows;
    let mut data: Vec<JVal> = Vec::new();
    let n = rows.len();
    proof {
        assert(rows@ =~= orig.skip(0));
    }
    for i in 0..n
        invariant
            n == orig.len(),
            rows@ =~= orig.skip(i as int),
            data@.len() == i,
            forall|k: int| 0 <= k < orig.len() ==> (#[trigger] orig[k]).values@.len() == columns@.len(),
            forall|k: int|
                0 <= k < i ==> row_marshalled(columns@, (#[trigger] orig[k]).values@, data@[k]),
    {
        let row = rows.remove(0);
        proof {
            assert(orig.skip(i as int)[0] == orig[i as int]);
            assert(orig.skip(i as int).remove(0) =~= orig.skip(i + 1));
        }
        data.push(marshal_row(&columns, row));
    }
    let rows_returned = n as u64;
    EnhancedSqlResult {
        data,
        columns,
        metadata: QueryMetadata {
            execution_time_ms,
            rows_returned,
            rows_affected: 0,
            last_insert_rowid: Option::None,
            query_plan,
            sqlite_version,
        },
    }
}

/// "sqlite_" as lowercase ASCII bytes.
pub open spec fn kw_sqlite_prefix() -> Seq<u8> {
    seq![115u8, 113u8, 108u8, 105u8, 116u8, 101u8, 95u8]
}

/// A table whose name begins with `sqlite_` belongs to the engine and is
/// not listed to the guest.
pub open spec fn is_internal_table(name: Seq<u8>) -> bool {
    starts_with_kw(name, kw_sqlite_prefix())
}

fn is_internal_table_exec(name: &String) -> (r: bool)
    ensures
        r == is_internal_table(encode_utf8(name@)),
{
    let bytes = name.as_str().as_bytes();
    let n = bytes.len();
    if n < 7 {
        proof {
            assert(!starts_with_kw(encode_utf8(name@), kw_sqlite_prefix()));
        }
        return false;
    }
    let kw: Vec<u8> = vec![115u8, 113u8, 108u8, 105u8, 116u8, 101u8, 95u8];
    let mut i: usize = 0;
    while i < 7
        invariant
            bytes@ == encode_utf8(name@),
            n == bytes@.len(),
            7 <= n,
            kw@ == kw_sqlite_prefix(),
            i <= 7,
            forall|k: int| 0 <= k < i ==> lower_byte(bytes@[k]) == kw@[k],
        decreases 7 - i,
    {
        let b = bytes[i];
        let lb = if 65 <= b && b <= 90 {
            b + 32
        } else {
            b
        };
        if lb != kw[i] {
            return false;
        }
        i += 1;
    }
    true
}

/// The given table names in order, with the engine's own `sqlite_*`
/// tables left out.
pub open spec fn user_tables(names: Seq<String>) -> Seq<String>
    decreases names.len(),
{
    if names.len() == 0 {
        Seq::empty()
    } else if is_internal_table(encode_utf8(names[0]@)) {
        user_tables(names.drop_first())
    } else {
        seq![names[0]] + user_tables(names.drop_first())
    }
}

/// The user-visible tables: the given names in order, with the engine's
/// own `sqlite_*` tables left out.
pub fn filter_user_tables(names: Vec<String>) -> (r: Vec<String>)
    ensures
        r@ == user_tables(names@),
{
    let ghost orig = names@;
    let mut names = names;
    let mut out: Vec<String> = Vec::new();
    let n = names.len();
    proof {
        assert(names@ =~= orig.skip(0));
        assert(user_tables(orig) =~= out@ + user_tables(orig.skip(0)));
    }
    for i in 0..n
        invariant
            n == orig.len(),
            names@ =~= orig.skip(i as int),
            user_tables(orig) == out@ + user_tables(orig.skip(i as int)),
    {
        let name = names.remove(0);
        proof {
            assert(orig.skip(i as int)[0] == orig[i as int]);
            assert(orig.skip(i as int).remove(0) =~= orig.skip(i + 1));
            assert(orig.skip(i as int).drop_first() =~= orig.skip(i + 1));
        }
        let internal = is_internal_table_exec(&name);
        let ghost out_before = out@;
        proof {
            assert(name == orig[i as int]);
        }
        if !internal {
            out.push(name);
        }
        proof {
            if internal {
                assert(user_tables(orig.skip(i as int)) == user_tables(orig.skip(i + 1)));
            } else {
                assert(user_tables(orig.skip(i as int)) == seq![orig[i as int]] + user_tables(
                    orig.skip(i + 1),
                ));
                assert(out@ =~= out_before.push(orig[i as int]));
            }
            assert(user_tables(orig) =~= out@ + user_tables(orig.skip(i + 1)));
        }
    }
    proof {
        assert(orig.skip(n as int).len() == 0);
        assert(user_tables(orig) =~= out@);
    }
    out
}

/// Assemble the statistics reported to the guest: the running counters,
/// the mean, and the database size as pages times page size (stopping at
/// the largest representable value).
pub fn build_database_stats(
    stats: &QueryStats,
    page_count: u64,
    page_size: u64,
    sqlite_version: String,
) -> (r: DatabaseStats)
    ensures
        r.total_queries == stats.total_queries,
        r.total_execution_time_ms == stats.total_execution_time_ms,
        stats.total_queries == 0 ==> r.average_execution_time_ms == 0,
        stats.total_queries > 0 ==> r.average_execution_time_ms == stats.total_execution_time_ms
            as int / stats.total_queries as int,
        r.query_count_by_type == stats.query_count_by_type,
        page_count * page_size <= u64::MAX ==> r.database_size_bytes == page_count * page_size,
        page_count * page_size > u64::MAX ==> r.database_size_bytes == u64::MAX,
        r.sqlite_version == sqlite_version,
{
    let database_size_bytes = if page_size == 0 {
        0
    } else if page_count <= u64::MAX / page_size {
        proof {
            assert(page_count * page_size <= u64::MAX) by (nonlinear_arith)
                requires
                    page_size > 0,
                    page_count <= u64::MAX as int / page_size as int,
            ;
        }
        page_count * page_size
    } else {
        proof {
            assert(page_count * page_size > u64::MAX) by (nonlinear_arith)
                requires
                    page_size > 0,
                    page_count > u64::MAX as int / page_size as int,
            ;
        }
        u64::MAX
    };
    DatabaseStats {
        total_queries: stats.total_queries,
        total_execution_time_ms: stats.total_execution_time_ms,
        average_execution_time_ms: stats.average_execution_time_ms(),
        query_count_by_type: stats.query_count_by_type,
        database_size_bytes,
        sqlite_version,
    }
}

/// Assemble the explanation of a statement from the plan text the engine
/// reported.  The engine offers no estimates, so both are zero.
pub fn build_query_explanation(query_plan: String, sqlite_version: String) -> (r: QueryExplanation)
    ensures
        r.query_plan == query_plan,
        r.estimated_cost == 0,
        r.estimated_rows == 0,
        r.sqlite_version == sqlite_version,
{
    QueryExplanation { query_plan, estimated_cost: 0, estimated_rows: 0, sqlite_version }
}

/// A `PRAGMA table_info` row has the shape the engine documents: column
/// id, name, declared type, not-null flag, default value, primary-key
/// flag.
pub open spec fn pragma_column_shape(values: Seq<SqlValue>) -> bool {
    &&& values.len() == 6
    &&& values[1] is Text
    &&& values[2] is Text
    &&& values[3] is Integer
    &&& (values[4] is Null || values[4] is Text)
    &&& values[5] is Integer
}

/// The value of an integer cell.
pub open spec fn int_cell(v: SqlValue) -> i64
    recommends
        v is Integer,
{
    match v {
        SqlValue::Integer(i) => i,
        _ => arbitrary(),
    }
}

/// The text of a text cell.
pub open spec fn text_cell(v: SqlValue) -> Seq<char>
    recommends
        v is Text,
{
    match v {
        SqlValue::Text(s) => s@,
        _ => arbitrary(),
    }
}

/// Read one `PRAGMA table_info` row into a column description: the name
/// and declared type as given, nullable unless the not-null flag is set,
/// primary key when its flag is set, never auto-increment, and the default
/// value as given.  A row of any other shape is a conversion failure.
pub fn column_info_from_pragma_row(row: SqlRow) -> (r: Result<ColumnInfo, DbError>)
    ensures
        r is Ok <==> pragma_column_shape(row.values@),
        r matches Ok(c) ==> {
            &&& c.name@ == text_cell(row.values@[1])
            &&& c.column_type@ == text_cell(row.values@[2])
            &&& c.nullable == (int_cell(row.values@[3]) == 0)
            &&& c.primary_key == (int_cell(row.values@[5]) != 0)
            &&& !c.auto_increment
            &&& match c.default_value {
                Option::Some(d) => row.values@[4] is Text && d@ == text_cell(row.values@[4]),
                Option::None => row.values@[4] is Null,
            }
        },
{
    let mut vals = row.values;
    if vals.len() != 6 {
        return Err(DbError::ConversionFailure(String::from_str("unexpected table_info row")));
    }
    let _cid = vals.remove(0);
    let name_v = vals.remove(0);
    let type_v = vals.remove(0);
    let notnull_v = vals.remove(0);
    let default_v = vals.remove(0);
    let pk_v = vals.remove(0);
    let name = match name_v {
        SqlValue::Text(s) => s,
        _ => {
            return Err(DbError::ConversionFailure(String::from_str("unexpected table_info row")));
        },
    };
    let column_type = match type_v {
        SqlValue::Text(s) => s,
        _ => {
            return Err(DbError::ConversionFailure(String::from_str("unexpected table_info row")));
        },
    };
    let notnull = match notnull_v {
        SqlValue::Integer(i) => i,
        _ => {
            return Err(DbError::ConversionFailure(String::from_str("unexpected table_info row")));
        },
    };
    let primary_key = match pk_v {
        SqlValue::Integer(i) => i != 0,
        _ => {
            return Err(DbError::ConversionFailure(String::from_str("unexpected table_info row")));
        },
    };
    let default_value = match default_v {
        SqlValue::Null => Option::None,
        SqlValue::Text(s) => Option::Some(s),
        _ => {
            return Err(DbError::ConversionFailure(String::from_str("unexpected table_info row")));
        },
    };
    Ok(
        ColumnInfo {
            name,
            column_type,
            nullable: notnull == 0,
            primary_key,
            auto_increment: false,
            default_value,
        },
    )
}

/// A `PRAGMA index_list` row names an index and says whether it is
/// unique: sequence number, name, unique flag, then origin and partiality.
pub open spec fn pragma_index_shape(values: Seq<SqlValue>) -> bool {
    values.len() >= 3 && values[1] is Text && values[2] is Integer
}

/// Read one `PRAGMA index_list` row into the index name and its
/// uniqueness.
pub fn index_from_pragma_row(row: SqlRow) -> (r: Result<(String, bool), DbError>)
    ensures
        r is Ok <==> pragma_index_shape(row.values@),
        r matches Ok(p) ==> p.0@ == text_cell(row.values@[1]) && p.1 == (int_cell(row.values@[2])
            != 0),
{
    let mut vals = row.values;
    if vals.len() < 3 {
        return Err(DbError::ConversionFailure(String::from_str("unexpected index_list row")));
    }
    let _seq = vals.remove(0);
    let name_v = vals.remove(0);
    let unique_v = vals.remove(0);
    let name = match name_v {
        SqlValue::Text(s) => s,
        _ => {
            return Err(DbError::ConversionFailure(String::from_str("unexpected index_list row")));
        },
    };
    let unique = match unique_v {
        SqlValue::Integer(i) => i != 0,
        _ => {
            return Err(DbError::ConversionFailure(String::from_str("unexpected index_list row")));
        },
    };
    Ok((name, unique))
}

/// A `PRAGMA index_info` row names one indexed column in its third cell.
pub open spec fn pragma_index_column_shape(values: Seq<SqlValue>) -> bool {
    values.len() >= 3 && values[2] is Text
}

/// Read one `PRAGMA index_info` row into the indexed column's name.
pub fn index_column_from_pragma_row(row: SqlRow) -> (r: Result<String, DbError>)
    ensures
        r is Ok <==> pragma_index_column_shape(row.values@),
        r matches Ok(c) ==> c@ == text_cell(row.values@[2]),
{
    let mut vals = row.values;
    if vals.len() < 3 {
        return Err(DbError::ConversionFailure(String::from_str("unexpected index_info row")));
    }
    let _seqno = vals.remove(0);
    let _cid = vals.remove(0);
    let name_v = vals.remove(0);
    match name_v {
        SqlValue::Text(s) => Ok(s),
        _ => Err(DbError::ConversionFailure(String::from_str("unexpected index_info row"))),
    }
}

/// One open connection as the host keeps it: its name, its transaction
/// session, and its statistics.
pub struct DatabaseResource {
    pub name: String,
    pub session: SqlSession,
    pub stats: QueryStats,
}

/// One open row cursor: the rows not yet handed to the guest, in order.
pub struct RowsResource {
    pub remaining: Vec<SqlRow>,
}

/// A host-owned object a guest handle can refer to.
pub enum HostResource {
    Database(DatabaseResource),
    Rows(RowsResource),
}

/// The connection behind a resource, where there is one.
pub open spec fn as_database(r: HostResource) -> DatabaseResource
    recommends
        r is Database,
{
    match r {
        HostResource::Database(db) => db,
        HostResource::Rows(_) => arbitrary(),
    }
}

/// The cursor behind a resource, where there is one.
pub open spec fn as_rows(r: HostResource) -> RowsResource
    recommends
        r is Rows,
{
    match r {
        HostResource::Rows(rows) => rows,
        HostResource::Database(_) => arbitrary(),
    }
}

/// What a SQL capability call can fail with: a handle that reaches no live
/// resource of the right kind, or an engine-level error.
#[derive(Debug, PartialEq, Eq)]
pub enum HostError {
    StaleHandle,
    Db(DbError),
}

/// The host side of the SQL capability of one guest: a generational table
/// of its open connections and row cursors.
pub struct SqliteState {
    resources: ResourceTable<HostResource>,
}

impl SqliteState {
    /// The resource table's bookkeeping is intact.
    pub closed spec fn wf(&self) -> bool {
        self.resources.wf()
    }

    /// The handle refers to a live resource.
    pub closed spec fn spec_live(&self, h: ResourceHandle) -> bool {
        self.resources.spec_live(h)
    }

    /// The handle was issued by this state at some point.
    pub closed spec fn spec_issued(&self, h: ResourceHandle) -> bool {
        self.resources.spec_issued(h)
    }

    /// The resource the handle refers to.
    pub closed spec fn spec_resource(&self, h: ResourceHandle) -> HostResource {
        self.resources.spec_payload(h)
    }

    /// The number of slots the table holds.
    pub closed spec fn spec_len(&self) -> nat {
        self.resources.spec_len()
    }

    /// Handles that this call does not touch keep their fate: live ones
    /// stay live with the same resource, dead issued ones stay dead.
    pub open spec fn preserves_others(&self, post: Self, h: ResourceHandle) -> bool {
        &&& forall|h2: ResourceHandle|
            self.spec_live(h2) && h2.index != h.index ==> #[trigger] post.spec_live(h2)
                && post.spec_resource(h2) == self.spec_resource(h2)
        &&& forall|h2: ResourceHandle|
            #[trigger] self.spec_issued(h2) ==> post.spec_issued(h2)
        &&& forall|h2: ResourceHandle|
            self.spec_issued(h2) && !self.spec_live(h2) ==> !#[trigger] post.spec_live(h2)
    }

    /// A failed call leaves the table as it was: the same handles are
    /// live, and every live handle still reaches the same resource.
    pub open spec fn unchanged_on_err(&self, post: Self, h: ResourceHandle) -> bool {
        &&& forall|h2: ResourceHandle| #[trigger] post.spec_live(h2) == self.spec_live(h2)
        &&& forall|h2: ResourceHandle|
            self.spec_live(h2) && h2.index != h.index ==> #[trigger] post.spec_resource(h2)
                == self.spec_resource(h2)
        &&& (self.spec_live(h) ==> post.spec_resource(h) == self.spec_resource(h))
        &&& forall|h2: ResourceHandle| #[trigger] post.spec_issued(h2) == self.spec_issued(h2)
    }

    /// An empty capability: no resources, no handles issued.
    pub fn new() -> (r: SqliteState)
        ensures
            r.wf(),
            forall|h: ResourceHandle| !r.spec_live(h),
            forall|h: ResourceHandle| !r.spec_issued(h),
    {
        SqliteState { resources: ResourceTable::new() }
    }

    /// Register a newly opened connection and hand out its handle.  The
    /// connection starts with an empty statement log, no open transaction,
    /// and zeroed statistics.
    pub fn open_db(&mut self, name: String) -> (h: ResourceHandle)
        requires
            old(self).wf(),
            old(self).spec_len() < u32::MAX,
        ensures
            final(self).wf(),
            h.owned,
            !old(self).spec_issued(h),
            final(self).spec_live(h),
            final(self).spec_resource(h) is Database,
            as_database(final(self).spec_resource(h)).name == name,
            as_database(final(self).spec_resource(h)).session.spec_log().len() == 0,
            as_database(final(self).spec_resource(h)).session.spec_tx_mark() is None,
            as_database(final(self).spec_resource(h)).stats.total_queries == 0,
            old(self).preserves_others(*final(self), h),
            forall|h2: ResourceHandle|
                old(self).spec_live(h2) ==> #[trigger] final(self).spec_live(h2) && final(self).spec_resource(h2) == old(self).spec_resource(h2),
    {
        let db = DatabaseResource { name, session: SqlSession::new(), stats: QueryStats::new() };
        let h = self.resources.push(HostResource::Database(db));
        h
    }

    /// Register the cursor of a fresh query result over the given rows and
    /// hand out its handle.
    pub fn open_rows(&mut self, rows: Vec<SqlRow>) -> (h: ResourceHandle)
        requires
            old(self).wf(),
            old(self).spec_len() < u32::MAX,
        ensures
            final(self).wf(),
            h.owned,
            !old(self).spec_issued(h),
            final(self).spec_live(h),
            final(self).spec_resource(h) is Rows,
            as_rows(final(self).spec_resource(h)).remaining == rows,
            old(self).preserves_others(*final(self), h),
            forall|h2: ResourceHandle|
                old(self).spec_live(h2) ==> #[trigger] final(self).spec_live(h2) && final(self).spec_resource(h2) == old(self).spec_resource(h2),
    {
        let h = self.resources.push(HostResource::Rows(RowsResource { remaining: rows }));
        h
    }

    /// Run a query on a connection: the rows the engine returned become a
    /// fresh cursor resource, and the guest gets its handle.  Fails with
    /// `StaleError` exactly when the handle reaches no live connection.
    pub fn query(&mut self, db: ResourceHandle, rows: Vec<SqlRow>) -> (r: Result<
        ResourceHandle,
        StaleError,
    >)
        requires
            old(self).wf(),
            old(self).spec_len() < u32::MAX,
        ensures
            final(self).wf(),
            r is Ok <==> old(self).spec_live(db) && old(self).spec_resource(db) is Database,
            r matches Ok(h) ==> {
                &&& h.owned
                &&& !old(self).spec_issued(h)
                &&& final(self).spec_live(h)
                &&& final(self).spec_resource(h) is Rows
                &&& as_rows(final(self).spec_resource(h)).remaining == rows
                &&& old(self).preserves_others(*final(self), h)
            },
            r is Err ==> *final(self) == *old(self),
    {
        let live_db = match self.resources.get(db) {
            Ok(HostResource::Database(_)) => true,
            _ => false,
        };
        if !live_db {
            return Err(StaleError);
        }
        Ok(self.open_rows(rows))
    }

    /// Hand the next row of a cursor to the guest, in the order the engine
    /// returned the rows; `None` once the cursor is exhausted.  Fails with
    /// `StaleHandle` exactly when the handle reaches no live cursor.
    pub fn next_row(&mut self, h: ResourceHandle) -> (r: Result<Option<SqlRow>, StaleError>)
        requires
            old(self).wf(),
        ensures
            final(self).wf(),
            r is Ok <==> old(self).spec_live(h) && old(self).spec_resource(h) is Rows,
            r matches Ok(row) ==> final(self).spec_live(h) && final(self).spec_resource(h) is Rows
                && {
                let before = as_rows(old(self).spec_resource(h)).remaining@;
                let after = as_rows(final(self).spec_resource(h)).remaining@;
                if before.len() > 0 {
                    row == Option::Some(before[0]) && after == before.drop_first()
                } else {
                    row is None && after == before
                }
            },
            old(self).preserves_others(*final(self), h),
            r is Err ==> old(self).unchanged_on_err(*final(self), h),
    {
        let placeholder = HostResource::Rows(RowsResource { remaining: Vec::new() });
        match self.resources.replace(h, placeholder) {
            Ok(HostResource::Rows(mut cursor)) => {
                let row = if cursor.remaining.len() > 0 {
                    Option::Some(cursor.remaining.remove(0))
                } else {
                    Option::None
                };
                proof {
                    if as_rows(old(self).spec_resource(h)).remaining@.len() > 0 {
                        assert(cursor.remaining@ =~= as_rows(
                            old(self).spec_resource(h),
                        ).remaining@.drop_first());
                    }
                }
                let put_back = self.resources.replace(h, HostResource::Rows(cursor));
                proof {
                    assert(put_back is Ok);
                }
                Ok(row)
            },
            Ok(HostResource::Database(db)) => {
                let put_back = self.resources.replace(h, HostResource::Database(db));
                proof {
                    assert(put_back is Ok);
                }
                Err(StaleError)
            },
            Err(e) => Err(e),
        }
    }

    /// Release the resource a handle owns.  Succeeds exactly when the
    /// handle is live and owned; afterwards the handle is dead for good,
    /// and every other resource is untouched.
    pub fn drop_resource(&mut self, h: ResourceHandle) -> (r: Result<(), StaleError>)
        requires
            old(self).wf(),
        ensures
            final(self).wf(),
            r is Ok <==> old(self).spec_live(h) && h.owned,
            r is Ok ==> !final(self).spec_live(h),
            old(self).preserves_others(*final(self), h),
            r is Err ==> old(self).unchanged_on_err(*final(self), h),
    {
        match self.resources.delete(h) {
            Ok(_) => Ok(()),
            Err(e) => Err(e),
        }
    }

    /// Record one statement the engine applied on a connection: append it
    /// to the session log and count it in the statistics.
    pub fn record_statement(&mut self, h: ResourceHandle, sql: String, execution_time_ms: u64) -> (r:
        Result<(), StaleError>)
        requires
            old(self).wf(),
        ensures
            final(self).wf(),
            r is Ok <==> old(self).spec_live(h) && old(self).spec_resource(h) is Database,
            r is Ok ==> final(self).spec_live(h) && final(self).spec_resource(h) is Database && {
                let before = as_database(old(self).spec_resource(h));
                let after = as_database(final(self).spec_resource(h));
                &&& after.name == before.name
                &&& after.session.spec_log() == before.session.spec_log().push(sql)
                &&& after.session.spec_tx_mark() == before.session.spec_tx_mark()
                &&& after.stats == crate::sqlstats::spec_record_query(
                    before.stats,
                    spec_query_kind(encode_utf8(sql@)),
                    execution_time_ms,
                )
            },
            old(self).preserves_others(*final(self), h),
            r is Err ==> old(self).unchanged_on_err(*final(self), h),
    {
        let placeholder = HostResource::Rows(RowsResource { remaining: Vec::new() });
        match self.resources.replace(h, placeholder) {
            Ok(HostResource::Database(mut db)) => {
                let kind = query_kind_of(sql.as_str());
                db.stats.record_query(kind, execution_time_ms);
                db.session.apply(sql);
                let put_back = self.resources.replace(h, HostResource::Database(db));
                proof {
                    assert(put_back is Ok);
                }
                Ok(())
            },
            Ok(HostResource::Rows(cursor)) => {
                let put_back = self.resources.replace(h, HostResource::Rows(cursor));
                proof {
                    assert(put_back is Ok);
                }
                Err(StaleError)
            },
            Err(e) => Err(e),
        }
    }

    /// Open a transaction on a connection: mark the session and mint the
    /// `tx_<nanos>` token.  Fails with `StaleHandle` when the handle
    /// reaches no live connection, and with the engine's error when a
    /// transaction is already open.
    pub fn begin_transaction(&mut self, h: ResourceHandle, now_nanos: u64) -> (r: Result<
        TransactionResult,
        HostError,
    >)
        requires
            old(self).wf(),
        ensures
            final(self).wf(),
            r is Ok <==> old(self).spec_live(h) && old(self).spec_resource(h) is Database
                && as_database(old(self).spec_resource(h)).session.spec_tx_mark() is None,
            r matches Ok(t) ==> t.success && t.transaction_id@ == crate::sqlsession::tx_id_chars(
                now_nanos,
            ) && final(self).spec_live(h) && final(self).spec_resource(h) is Database && {
                let before = as_database(old(self).spec_resource(h));
                let after = as_database(final(self).spec_resource(h));
                &&& after.name == before.name
                &&& after.session.spec_log() == before.session.spec_log()
                &&& after.session.spec_tx_mark() == Option::Some(
                    before.session.spec_log().len() as usize,
                )
                &&& after.stats == before.stats
            },
            old(self).preserves_others(*final(self), h),
            r is Err ==> old(self).unchanged_on_err(*final(self), h),
    {
        let placeholder = HostResource::Rows(RowsResource { remaining: Vec::new() });
        match self.resources.replace(h, placeholder) {
            Ok(HostResource::Database(mut db)) => {
                let res = db.session.begin_transaction(now_nanos);
                let put_back = self.resources.replace(h, HostResource::Database(db));
                proof {
                    assert(put_back is Ok);
                }
                match res {
                    Ok(t) => Ok(t),
                    Err(e) => Err(HostError::Db(e)),
                }
            },
            Ok(HostResource::Rows(cursor)) => {
                let put_back = self.resources.replace(h, HostResource::Rows(cursor));
                proof {
                    assert(put_back is Ok);
                }
                Err(HostError::StaleHandle)
            },
            Err(_) => Err(HostError::StaleHandle),
        }
    }

    /// Commit the open transaction on a connection, keeping its applied
    /// statements.  The token is echoed back, not checked.
    pub fn commit_transaction(&mut self, h: ResourceHandle, transaction_id: String) -> (r: Result<
        TransactionResult,
        HostError,
    >)
        requires
            old(self).wf(),
        ensures
            final(self).wf(),
            r is Ok <==> old(self).spec_live(h) && old(self).spec_resource(h) is Database
                && as_database(old(self).spec_resource(h)).session.spec_tx_mark() is Some,
            r matches Ok(t) ==> t.success && t.transaction_id == transaction_id && final(self).spec_live(h) && final(self).spec_resource(h) is Database && {
                let before = as_database(old(self).spec_resource(h));
                let after = as_database(final(self).spec_resource(h));
                &&& after.name == before.name
                &&& after.session.spec_log() == before.session.spec_log()
                &&& after.session.spec_tx_mark() is None
                &&& after.stats == before.stats
            },
            old(self).preserves_others(*final(self), h),
            r is Err ==> old(self).unchanged_on_err(*final(self), h),
    {
        let placeholder = HostResource::Rows(RowsResource { remaining: Vec::new() });
        match self.resources.replace(h, placeholder) {
            Ok(HostResource::Database(mut db)) => {
                let res = db.session.commit_transaction(transaction_id);
                let put_back = self.resources.replace(h, HostResource::Database(db));
                proof {
                    assert(put_back is Ok);
                }
                match res {
                    Ok(t) => Ok(t),
                    Err(e) => Err(HostError::Db(e)),
                }
            },
            Ok(HostResource::Rows(cursor)) => {
                let put_back = self.resources.replace(h, HostResource::Rows(cursor));
                proof {
                    assert(put_back is Ok);
                }
                Err(HostError::StaleHandle)
            },
            Err(_) => Err(HostError::StaleHandle),
        }
    }

    /// Roll back the open transaction on a connection: its session log
    /// returns to where `begin` marked it, so later queries observe no
    /// effect of the discarded statements.  The token is echoed back, not
    /// checked.
    pub fn rollback_transaction(&mut self, h: ResourceHandle, transaction_id: String) -> (r: Result<
        TransactionResult,
        HostError,
    >)
        requires
            old(self).wf(),
        ensures
            final(self).wf(),
            r is Ok <==> old(self).spec_live(h) && old(self).spec_resource(h) is Database
                && as_database(old(self).spec_resource(h)).session.spec_tx_mark() is Some,
            r matches Ok(t) ==> t.success && t.transaction_id == transaction_id && final(self).spec_live(h) && final(self).spec_resource(h) is Database && {
                let before = as_database(old(self).spec_resource(h));
                let after = as_database(final(self).spec_resource(h));
                &&& after.name == before.name
                &&& (before.session.spec_tx_mark() matches Option::Some(m)
                    && after.session.spec_log() == before.session.spec_log().subrange(0, m as int))
                &&& after.session.spec_tx_mark() is None
                &&& after.stats == before.stats
            },
            old(self).preserves_others(*final(self), h),
            r is Err ==> old(self).unchanged_on_err(*final(self), h),
    {
        let placeholder = HostResource::Rows(RowsResource { remaining: Vec::new() });
        match self.resources.replace(h, placeholder) {
            Ok(HostResource::Database(mut db)) => {
                let res = db.session.rollback_transaction(transaction_id);
                let put_back = self.resources.replace(h, HostResource::Database(db));
                proof {
                    assert(put_back is Ok);
                }
                match res {
                    Ok(t) => Ok(t),
                    Err(e) => Err(HostError::Db(e)),
                }
            },
            Ok(HostResource::Rows(cursor)) => {
                let put_back = self.resources.replace(h, HostResource::Rows(cursor));
                proof {
                    assert(put_back is Ok);
                }
                Err(HostError::StaleHandle)
            },
            Err(_) => Err(HostError::StaleHandle),
        }
    }

    /// Report the statistics of a connection, with the database size the
    /// engine gave in pages.
    pub fn database_stats(
        &self,
        h: ResourceHandle,
        page_count: u64,
        page_size: u64,
        sqlite_version: String,
    ) -> (r: Result<DatabaseStats, StaleError>)
        ensures
            r is Ok <==> self.spec_live(h) && self.spec_resource(h) is Database,
            r matches Ok(stats) ==> {
                let db = as_database(self.spec_resource(h));
                &&& stats.total_queries == db.stats.total_queries
                &&& stats.total_execution_time_ms == db.stats.total_execution_time_ms
                &&& stats.query_count_by_type == db.stats.query_count_by_type
                &&& stats.sqlite_version == sqlite_version
            },
    {
        match self.resources.get(h) {
            Ok(HostResource::Database(db)) => Ok(
                build_database_stats(&db.stats, page_count, page_size, sqlite_version),
            ),
            Ok(HostResource::Rows(_)) => Err(StaleError),
            Err(e) => Err(e),
        }
    }
}

} // verus!
