//! The SQL text the relational backend issues, one statement per store
//! operation, with the table name spliced in. The statements are built
//! here so the characters actually sent are pinned by contract; the
//! layer around the library binds the parameters and runs them.

use vstd::prelude::*;

verus! {

use vstd::string::StringExecFns;

/// The schema `migrate` ensures: id (text primary key), expires
/// (nullable timestamp with time zone), session (opaque text).
pub fn create_table_sql(table: &str) -> (r: String)
    ensures
        r@ == "CREATE TABLE IF NOT EXISTS "@ + table@
            + " (\"id\" VARCHAR NOT NULL PRIMARY KEY, \"expires\" TIMESTAMPTZ NULL, \"session\" TEXT NOT NULL)"@,
{
    let mut q = String::from_str("CREATE TABLE IF NOT EXISTS ");
    q.append(table);
    q.append(
        " (\"id\" VARCHAR NOT NULL PRIMARY KEY, \"expires\" TIMESTAMPTZ NULL, \"session\" TEXT NOT NULL)",
    );
    q
}

/// The read behind `load`: one row by id, filtered to rows that have
/// not expired by the bound instant — the lazy-expiry filter happens in
/// the statement, and a read never writes.
pub fn load_sql(table: &str) -> (r: String)
    ensures
        r@ == "SELECT session FROM "@ + table@
            + " WHERE id = $1 AND (expires IS NULL OR expires > $2)"@,
{
    let mut q = String::from_str("SELECT session FROM ");
    q.append(table);
    q.append(" WHERE id = $1 AND (expires IS NULL OR expires > $2)");
    q
}

/// The atomic upsert behind `store`: insert or, on a primary-key
/// conflict, replace both expiry and payload in one statement, so
/// concurrent writers for one id serialize at the storage layer.
pub fn upsert_sql(table: &str) -> (r: String)
    ensures
        r@ == "INSERT INTO "@ + table@
            + " (id, session, expires) SELECT $1, $2, $3 ON CONFLICT(id) DO UPDATE SET expires = EXCLUDED.expires, session = EXCLUDED.session"@,
{
    let mut q = String::from_str("INSERT INTO ");
    q.append(table);
    q.append(
        " (id, session, expires) SELECT $1, $2, $3 ON CONFLICT(id) DO UPDATE SET expires = EXCLUDED.expires, session = EXCLUDED.session",
    );
    q
}

/// The delete behind `destroy`; deleting an absent id affects no row
/// and succeeds, which makes destroy idempotent.
pub fn destroy_sql(table: &str) -> (r: String)
    ensures
        r@ == "DELETE FROM "@ + table@ + " WHERE id = $1"@,
{
    let mut q = String::from_str("DELETE FROM ");
    q.append(table);
    q.append(" WHERE id = $1");
    q
}

/// The administrative wipe behind `clear`.
pub fn clear_sql(table: &str) -> (r: String)
    ensures
        r@ == "TRUNCATE "@ + table@,
{
    let mut q = String::from_str("TRUNCATE ");
    q.append(table);
    q
}

/// The row count behind `count`, dead rows included.
pub fn count_sql(table: &str) -> (r: String)
    ensures
        r@ == "SELECT COUNT(*) FROM "@ + table@,
{
    let mut q = String::from_str("SELECT COUNT(*) FROM ");
    q.append(table);
    q
}

} // verus!
