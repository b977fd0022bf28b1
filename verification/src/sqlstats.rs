//! Per-connection query statistics.
//!
//! Every successful execute or query bumps the totals and the bucket of its
//! statement kind, keyed by the first SQL keyword of the statement text.

use vstd::prelude::*;
use vstd::string::StringSliceAdditionalSpecFns;

verus! {

/// The statement kinds that get their own bucket; anything else counts as
/// `Other`.
#[derive(Debug, Clone, Copy, PartialEq, Eq, Structural)]
pub enum QueryKind {
    Select,
    Insert,
    Update,
    Delete,
    Create,
    Drop,
    Alter,
    Other,
}

/// ASCII whitespace, as it may precede the first keyword.
pub open spec fn is_sql_space(b: u8) -> bool {
    b == 32 || b == 9 || b == 10 || b == 13 || b == 11 || b == 12
}

/// ASCII lowercasing of one byte.
pub open spec fn lower_byte(b: u8) -> u8 {
    if 65 <= b <= 90 {
        (b + 32) as u8
    } else {
        b
    }
}

/// The bytes with their leading ASCII whitespace removed.
pub open spec fn trim_start_spaces(bytes: Seq<u8>) -> Seq<u8>
    decreases bytes.len(),
{
    if bytes.len() > 0 && is_sql_space(bytes[0]) {
        trim_start_spaces(bytes.drop_first())
    } else {
        bytes
    }
}

/// The bytes begin, case-insensitively, with the given lowercase keyword.
pub open spec fn starts_with_kw(bytes: Seq<u8>, kw: Seq<u8>) -> bool {
    bytes.len() >= kw.len() && forall|i: int| 0 <= i < kw.len() ==> lower_byte(bytes[i]) == kw[i]
}

/// "select", "insert", "update", "delete", "create", "drop", "alter" as
/// lowercase ASCII bytes.
pub open spec fn kw_select() -> Seq<u8> {
    seq![115u8, 101u8, 108u8, 101u8, 99u8, 116u8]
}

pub open spec fn kw_insert() -> Seq<u8> {
    seq![105u8, 110u8, 115u8, 101u8, 114u8, 116u8]
}

pub open spec fn kw_update() -> Seq<u8> {
    seq![117u8, 112u8, 100u8, 97u8, 116u8, 101u8]
}

pub open spec fn kw_delete() -> Seq<u8> {
    seq![100u8, 101u8, 108u8, 101u8, 116u8, 101u8]
}

pub open spec fn kw_create() -> Seq<u8> {
    seq![99u8, 114u8, 101u8, 97u8, 116u8, 101u8]
}

pub open spec fn kw_drop() -> Seq<u8> {
    seq![100u8, 114u8, 111u8, 112u8]
}

pub open spec fn kw_alter() -> Seq<u8> {
    seq![97u8, 108u8, 116u8, 101u8, 114u8]
}

/// The kind of a statement: the first keyword after leading whitespace,
/// compared case-insensitively.
pub open spec fn spec_query_kind(bytes: Seq<u8>) -> QueryKind {
    let t = trim_start_spaces(bytes);
    if starts_with_kw(t, kw_select()) {
        QueryKind::Select
    } else if starts_with_kw(t, kw_insert()) {
        QueryKind::Insert
    } else if starts_with_kw(t, kw_update()) {
        QueryKind::Update
    } else if starts_with_kw(t, kw_delete()) {
        QueryKind::Delete
    } else if starts_with_kw(t, kw_create()) {
        QueryKind::Create
    } else if starts_with_kw(t, kw_drop()) {
        QueryKind::Drop
    } else if starts_with_kw(t, kw_alter()) {
        QueryKind::Alter
    } else {
        QueryKind::Other
    }
}

fn is_sql_space_exec(b: u8) -> (r: bool)
    ensures
        r == is_sql_space(b),
{
    b == 32 || b == 9 || b == 10 || b == 13 || b == 11 || b == 12
}

fn lower_byte_exec(b: u8) -> (r: u8)
    ensures
        r == lower_byte(b),
{
    if 65 <= b && b <= 90 {
        b + 32
    } else {
        b
    }
}

fn starts_with_lower(bytes: &[u8], start: usize, kw: &Vec<u8>) -> (r: bool)
    requires
        start <= bytes@.len(),
    ensures
        r == starts_with_kw(bytes@.skip(start as int), kw@),
{
    let n = kw.len();
    let m = bytes.len();
    if m - start < n {
        return false;
    }
    for i in 0..n
        invariant
            n == kw@.len(),
            m == bytes@.len(),
            start + n <= m,
            forall|k: int| 0 <= k < i ==> lower_byte(bytes@.skip(start as int)[k]) == kw@[k],
    {
        let b = bytes[start + i];
        proof {
            assert(bytes@.skip(start as int)[i as int] == bytes@[start + i]);
        }
        if lower_byte_exec(b) != kw[i] {
            return false;
        }
    }
    true
}

/// Classify a statement by its first keyword.
pub fn query_kind_of(sql: &str) -> (r: QueryKind)
    ensures
        r == spec_query_kind(sql.spec_bytes()),
{
    let bytes = sql.as_bytes();
    let n = bytes.len();
    let mut t: usize = 0;
    proof {
        assert(bytes@.skip(0) =~= bytes@);
    }
    while t < n && is_sql_space_exec(bytes[t])
        invariant
            n == bytes@.len(),
            t <= n,
            trim_start_spaces(bytes@) == trim_start_spaces(bytes@.skip(t as int)),
        decreases n - t,
    {
        proof {
            assert(bytes@.skip(t as int)[0] == bytes@[t as int]);
            assert(bytes@.skip(t as int).drop_first() =~= bytes@.skip(t + 1));
        }
        t += 1;
    }
    proof {
        if t < n {
            assert(bytes@.skip(t as int)[0] == bytes@[t as int]);
        }
        assert(trim_start_spaces(bytes@.skip(t as int)) == bytes@.skip(t as int));
    }
    let kw: Vec<u8> = vec![115u8, 101u8, 108u8, 101u8, 99u8, 116u8];
    if starts_with_lower(bytes, t, &kw) {
        return QueryKind::Select;
    }
    let kw: Vec<u8> = vec![105u8, 110u8, 115u8, 101u8, 114u8, 116u8];
    if starts_with_lower(bytes, t, &kw) {
        return QueryKind::Insert;
    }
    let kw: Vec<u8> = vec![117u8, 112u8, 100u8, 97u8, 116u8, 101u8];
    if starts_with_lower(bytes, t, &kw) {
        return QueryKind::Update;
    }
    let kw: Vec<u8> = vec![100u8, 101u8, 108u8, 101u8, 116u8, 101u8];
    if starts_with_lower(bytes, t, &kw) {
        return QueryKind::Delete;
    }
    let kw: Vec<u8> = vec![99u8, 114u8, 101u8, 97u8, 116u8, 101u8];
    if starts_with_lower(bytes, t, &kw) {
        return QueryKind::Create;
    }
    let kw: Vec<u8> = vec![100u8, 114u8, 111u8, 112u8];
    if starts_with_lower(bytes, t, &kw) {
        return QueryKind::Drop;
    }
    let kw: Vec<u8> = vec![97u8, 108u8, 116u8, 101u8, 114u8];
    if starts_with_lower(bytes, t, &kw) {
        return QueryKind::Alter;
    }
    QueryKind::Other
}

/// One counter per statement kind.
#[derive(Debug, Clone, Copy, PartialEq, Eq, Structural, Default)]
pub struct QueryCounts {
    pub select_queries: u64,
    pub insert_queries: u64,
    pub update_queries: u64,
    pub delete_queries: u64,
    pub create_queries: u64,
    pub drop_queries: u64,
    pub alter_queries: u64,
    pub other_queries: u64,
}

impl QueryCounts {
    /// The bucket for the given kind.
    pub open spec fn spec_count(&self, kind: QueryKind) -> u64 {
        match kind {
            QueryKind::Select => self.select_queries,
            QueryKind::Insert => self.insert_queries,
            QueryKind::Update => self.update_queries,
            QueryKind::Delete => self.delete_queries,
            QueryKind::Create => self.create_queries,
            QueryKind::Drop => self.drop_queries,
            QueryKind::Alter => self.alter_queries,
            QueryKind::Other => self.other_queries,
        }
    }
}

/// Running statistics of one connection.
#[derive(Debug, Clone, Copy, PartialEq, Eq, Structural, Default)]
pub struct QueryStats {
    pub total_queries: u64,
    pub total_execution_time_ms: u64,
    pub query_count_by_type: QueryCounts,
}

/// `a + b`, stopping at the largest counter value.
pub open spec fn sat_add_u64(a: u64, b: u64) -> u64 {
    if a + b <= u64::MAX {
        (a + b) as u64
    } else {
        u64::MAX
    }
}

/// The counts after one more statement of the given kind.
pub open spec fn spec_bump_count(c: QueryCounts, kind: QueryKind) -> QueryCounts {
    match kind {
        QueryKind::Select => QueryCounts { select_queries: sat_add_u64(c.select_queries, 1), ..c },
        QueryKind::Insert => QueryCounts { insert_queries: sat_add_u64(c.insert_queries, 1), ..c },
        QueryKind::Update => QueryCounts { update_queries: sat_add_u64(c.update_queries, 1), ..c },
        QueryKind::Delete => QueryCounts { delete_queries: sat_add_u64(c.delete_queries, 1), ..c },
        QueryKind::Create => QueryCounts { create_queries: sat_add_u64(c.create_queries, 1), ..c },
        QueryKind::Drop => QueryCounts { drop_queries: sat_add_u64(c.drop_queries, 1), ..c },
        QueryKind::Alter => QueryCounts { alter_queries: sat_add_u64(c.alter_queries, 1), ..c },
        QueryKind::Other => QueryCounts { other_queries: sat_add_u64(c.other_queries, 1), ..c },
    }
}

/// The statistics after one more statement of the given kind that took the
/// given time.
pub open spec fn spec_record_query(s: QueryStats, kind: QueryKind, ms: u64) -> QueryStats {
    QueryStats {
        total_queries: sat_add_u64(s.total_queries, 1),
        total_execution_time_ms: sat_add_u64(s.total_execution_time_ms, ms),
        query_count_by_type: spec_bump_count(s.query_count_by_type, kind),
    }
}

fn sat_add_exec(a: u64, b: u64) -> (r: u64)
    ensures
        r == sat_add_u64(a, b),
{
    if a <= u64::MAX - b {
        a + b
    } else {
        u64::MAX
    }
}

impl QueryStats {
    /// Fresh statistics: nothing counted yet.
    pub fn new() -> (r: QueryStats)
        ensures
            r.total_queries == 0,
            r.total_execution_time_ms == 0,
            forall|k: QueryKind| r.query_count_by_type.spec_count(k) == 0,
    {
        QueryStats {
            total_queries: 0,
            total_execution_time_ms: 0,
            query_count_by_type: QueryCounts {
                select_queries: 0,
                insert_queries: 0,
                update_queries: 0,
                delete_queries: 0,
                create_queries: 0,
                drop_queries: 0,
                alter_queries: 0,
                other_queries: 0,
            },
        }
    }

    /// Count one executed statement: bump the total, add its elapsed
    /// milliseconds, and bump the bucket of its kind.  Counters stop at
    /// their largest value rather than wrap.
    pub fn record_query(&mut self, kind: QueryKind, execution_time_ms: u64)
        ensures
            *final(self) == spec_record_query(*old(self), kind, execution_time_ms),
            final(self).total_queries == sat_add_u64(old(self).total_queries, 1),
            final(self).total_execution_time_ms == sat_add_u64(
                old(self).total_execution_time_ms,
                execution_time_ms,
            ),
            final(self).query_count_by_type.spec_count(kind) == sat_add_u64(
                old(self).query_count_by_type.spec_count(kind),
                1,
            ),
            forall|k: QueryKind|
                k != kind ==> final(self).query_count_by_type.spec_count(k) == old(
                    self,
                ).query_count_by_type.spec_count(k),
    {
        self.total_queries = sat_add_exec(self.total_queries, 1);
        self.total_execution_time_ms = sat_add_exec(
            self.total_execution_time_ms,
            execution_time_ms,
        );
        let counts = &mut self.query_count_by_type;
        match kind {
            QueryKind::Select => counts.select_queries = sat_add_exec(counts.select_queries, 1),
            QueryKind::Insert => counts.insert_queries = sat_add_exec(counts.insert_queries, 1),
            QueryKind::Update => counts.update_queries = sat_add_exec(counts.update_queries, 1),
            QueryKind::Delete => counts.delete_queries = sat_add_exec(counts.delete_queries, 1),
            QueryKind::Create => counts.create_queries = sat_add_exec(counts.create_queries, 1),
            QueryKind::Drop => counts.drop_queries = sat_add_exec(counts.drop_queries, 1),
            QueryKind::Alter => counts.alter_queries = sat_add_exec(counts.alter_queries, 1),
            QueryKind::Other => counts.other_queries = sat_add_exec(counts.other_queries, 1),
        }
    }

    /// Mean execution time in whole milliseconds, zero when nothing has
    /// been counted.
    pub fn average_execution_time_ms(&self) -> (r: u64)
        ensures
            self.total_queries == 0 ==> r == 0,
            self.total_queries > 0 ==> r == self.total_execution_time_ms as int
                / self.total_queries as int,
    {
        if self.total_queries > 0 {
            self.total_execution_time_ms / self.total_queries
        } else {
            0
        }
    }
}

} // verus!
