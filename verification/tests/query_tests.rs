use striem::query::{apply_limit, default_limit, QueryError, QueryRequest};

#[test]
fn default_limit_is_one_hundred() {
    assert_eq!(default_limit(), 100);
    let r = QueryRequest::new("SELECT 1".to_string());
    assert_eq!(r.limit, 100);
    assert_eq!(r.sql, "SELECT 1");
    let e = QueryError { error: "boom".to_string() };
    assert_eq!(e.error, "boom");
}

#[test]
fn limit_is_appended_when_absent() {
    assert_eq!(apply_limit("SELECT * FROM t", 100), "SELECT * FROM t LIMIT 100");
    assert_eq!(apply_limit("SELECT * FROM t;", 5), "SELECT * FROM t LIMIT 5");
    assert_eq!(apply_limit("SELECT 1;;;", 0), "SELECT 1 LIMIT 0");
    // only trailing semicolons are removed, not trailing spaces
    assert_eq!(apply_limit("SELECT 1; ", 3), "SELECT 1;  LIMIT 3");
}

#[test]
fn existing_limit_is_kept() {
    assert_eq!(apply_limit("select * from t limit 10", 100), "select * from t limit 10");
    assert_eq!(apply_limit("SELECT * FROM t LIMIT 1;", 100), "SELECT * FROM t LIMIT 1;");
    // any occurrence counts, as in the original text search
    assert_eq!(apply_limit("SELECT limits FROM t", 7), "SELECT limits FROM t");
}

#[test]
fn bounding_twice_changes_nothing() {
    let once = apply_limit("SELECT * FROM events;", 42);
    assert_eq!(apply_limit(&once, 9), once);
}
