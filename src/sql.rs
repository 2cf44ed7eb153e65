use vstd::prelude::*;

verus! {

#[verifier::external_type_specification]
#[verifier::external_body]
pub struct ExConnection(rusqlite::Connection);

/// What a query for at most one row gave.
pub enum RowOutcome<T> {
    /// The first row's value.
    Row(T),
    /// The query ran and matched no row.
    NoRow,
    /// The query could not be prepared or run, or the value could not be
    /// read as the expected type.
    Failed,
}

/// Relies on rusqlite::Connection::open_with_flags with
/// `SQLITE_OPEN_READ_ONLY`: a read-only handle on the file at `path`, or
/// nothing where it cannot be opened as a database. The handle is closed
/// when it is dropped.
#[verifier::external_body]
pub(crate) fn open_read_only(path: &str) -> (r: Option<rusqlite::Connection>) {
    rusqlite::Connection::open_with_flags(path, rusqlite::OpenFlags::SQLITE_OPEN_READ_ONLY).ok()
}

/// Relies on rusqlite::Connection::query_row: the first column of the first
/// row that `sql` returns with `params` bound, read as a blob.
#[verifier::external_body]
pub(crate) fn query_blob(conn: &rusqlite::Connection, sql: &str, params: &[u32]) -> (r: RowOutcome<Vec<u8>>) {
    match conn.query_row(sql, rusqlite::params_from_iter(params.iter()), |row| row.get::<_, Vec<u8>>(0)) {
        Ok(v) => RowOutcome::Row(v),
        Err(rusqlite::Error::QueryReturnedNoRows) => RowOutcome::NoRow,
        Err(_) => RowOutcome::Failed,
    }
}

/// Relies on rusqlite::Connection::query_row: the first column of the first
/// row that `sql` returns, read as an integer.
#[verifier::external_body]
pub(crate) fn query_count(conn: &rusqlite::Connection, sql: &str) -> (r: RowOutcome<i64>) {
    match conn.query_row(sql, [], |row| row.get::<_, i64>(0)) {
        Ok(v) => RowOutcome::Row(v),
        Err(rusqlite::Error::QueryReturnedNoRows) => RowOutcome::NoRow,
        Err(_) => RowOutcome::Failed,
    }
}

/// Relies on rusqlite::Connection::prepare and Statement::query_map: every
/// row that `sql` returns with `params` bound, its first two columns read as
/// text; nothing where the query fails or a value is not text.
#[verifier::external_body]
pub(crate) fn query_text_pairs(conn: &rusqlite::Connection, sql: &str, params: &[u32]) -> (r: Option<
    Vec<(String, String)>,
>) {
    let mut statement = conn.prepare(sql).ok()?;
    let rows = statement.query_map(rusqlite::params_from_iter(params.iter()), |row| {
        Ok((row.get::<_, String>(0)?, row.get::<_, String>(1)?))
    }).ok()?;
    rows.collect::<Result<Vec<(String, String)>, rusqlite::Error>>().ok()
}

} // verus!
