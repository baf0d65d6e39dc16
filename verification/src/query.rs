//! SQL query requests against stored data: request/response shapes and the
//! rule that bounds a query's result size.
use vstd::prelude::*;

use crate::json::JsonValue;
use crate::text::{concat3, contains_ascii_ci, contains_ci, decimal, decimal_text, trim_end_char, trim_end_matching};

verus! {

/// A query request: SQL text and the row limit applied when the SQL has none.
pub struct QueryRequest {
    pub sql: String,
    pub limit: usize,
}

/// A successful query's result table.
pub struct QueryResponse {
    pub columns: Vec<String>,
    pub rows: Vec<Vec<JsonValue>>,
    pub row_count: usize,
    pub execution_time: u128,
}

/// A failed query's message.
pub struct QueryError {
    pub error: String,
}

/// The limit used when a request names none.
pub fn default_limit() -> (n: usize)
    ensures
        n == 100,
{
    100
}

impl QueryRequest {
    /// A request for `sql` with the default limit.
    pub fn new(sql: String) -> (r: Self)
        ensures
            r.sql == sql,
            r.limit == 100,
    {
        QueryRequest { sql, limit: default_limit() }
    }
}

/// The SQL that is run for a request: unchanged when it already mentions
/// `limit` in any letter case, otherwise with trailing semicolons removed and
/// ` LIMIT <limit>` appended.
pub open spec fn limited_sql(sql: Seq<char>, limit: nat) -> Seq<char> {
    if contains_ci(sql, "limit"@) {
        sql
    } else {
        trim_end_char(sql, ';') + " LIMIT "@ + decimal(limit)
    }
}

/// Bounds the result size of `sql`: when the text does not already contain
/// `limit` (compared without regard to case), the statement's trailing `;`
/// characters are dropped and ` LIMIT <limit>` is appended.
///
/// Upper-case forms are compared as ASCII letters; no other character lower-cases
/// to a text that contains `limit`, so this agrees with a full Unicode lower-casing.
pub fn apply_limit(sql: &str, limit: usize) -> (r: String)
    ensures
        r@ == limited_sql(sql@, limit as nat),
{
    proof {
        reveal_strlit("limit");
        reveal_strlit(" LIMIT ");
    }
    if contains_ascii_ci(sql, "limit") {
        String::from_str(sql)
    } else {
        let body = trim_end_matching(sql, ';');
        let n = decimal_text(limit as u64);
        concat3(body.as_str(), " LIMIT ", n.as_str())
    }
}

proof fn lemma_trim_end(s: Seq<char>, c: char)
    ensures
        trim_end_char(s, c).len() <= s.len(),
        trim_end_char(s, c) == s.subrange(0, trim_end_char(s, c).len() as int),
        forall|i: int| trim_end_char(s, c).len() <= i < s.len() ==> s[i] == c,
        trim_end_char(s, c).len() == 0 || trim_end_char(s, c).last() != c,
    decreases s.len(),
{
    if s.len() > 0 && s.last() == c {
        lemma_trim_end(s.drop_last(), c);
        let t = trim_end_char(s, c);
        assert(t == s.drop_last().subrange(0, t.len() as int));
        assert(t =~= s.subrange(0, t.len() as int));
        assert forall|i: int| t.len() <= i < s.len() implies s[i] == c by {
            if i < s.len() - 1 {
                assert(s.drop_last()[i] == s[i]);
            }
        }
    } else {
        assert(s.subrange(0, s.len() as int) =~= s);
    }
}

/// A query that mentions `limit` (in any letter case) is run as it is. Any
/// other is run as its text up to its trailing semicolons, then ` LIMIT ` and
/// the limit in decimal; either way the query run mentions `limit`.
pub proof fn lemma_limit_shape(sql: Seq<char>, n: nat)
    ensures
        contains_ci(sql, "limit"@) ==> limited_sql(sql, n) == sql,
        !contains_ci(sql, "limit"@) ==> exists|k: int|
            #![trigger sql.subrange(0, k)]
            0 <= k <= sql.len() && (forall|i: int| k <= i < sql.len() ==> sql[i] == ';') && (k == 0
                || sql[k - 1] != ';') && limited_sql(sql, n) == sql.subrange(0, k) + " LIMIT "@
                + decimal(n),
        contains_ci(limited_sql(sql, n), "limit"@),
{
    lemma_limit_idempotent(sql, n, n);
    if !contains_ci(sql, "limit"@) {
        lemma_trim_end(sql, ';');
        let k = trim_end_char(sql, ';').len() as int;
        if k > 0 {
            assert(sql[k - 1] == trim_end_char(sql, ';').last());
        }
        assert(limited_sql(sql, n) == sql.subrange(0, k) + " LIMIT "@ + decimal(n));
    }
}

/// Bounding a query is idempotent: the bounded text already names a limit, so a
/// second bounding, with any limit, leaves it unchanged.
pub proof fn lemma_limit_idempotent(sql: Seq<char>, n: nat, m: nat)
    ensures
        limited_sql(limited_sql(sql, n), m) == limited_sql(sql, n),
{
    reveal_strlit("limit");
    reveal_strlit(" LIMIT ");
    if !contains_ci(sql, "limit"@) {
        let t = trim_end_char(sql, ';');
        let r = t + " LIMIT "@ + decimal(n);
        let w = "limit"@;
        let i: int = t.len() as int + 1;
        assert(r[i] == 'L' && r[i + 1] == 'I' && r[i + 2] == 'M' && r[i + 3] == 'I' && r[i + 4] == 'T');
        assert forall|j: int| 0 <= j < w.len() implies #[trigger] crate::text::ascii_ci_eq(r[i + j], w[j]) by {
            assert(j == 0 || j == 1 || j == 2 || j == 3 || j == 4);
        }
        assert(crate::text::occurs_ci_at(r, w, i));
    }
}

} // verus!
