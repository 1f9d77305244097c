use recurio::sql;
use recurio::routes::services::CreateService;
use recurio::domain::service::NewService;

#[test]
fn statements_splice_the_table_name() {
    assert_eq!(
        sql::create_table_sql("sessions"),
        "CREATE TABLE IF NOT EXISTS sessions (\"id\" VARCHAR NOT NULL PRIMARY KEY, \"expires\" TIMESTAMPTZ NULL, \"session\" TEXT NOT NULL)"
    );
    assert_eq!(
        sql::load_sql("sessions"),
        "SELECT session FROM sessions WHERE id = $1 AND (expires IS NULL OR expires > $2)"
    );
    assert_eq!(
        sql::upsert_sql("sessions"),
        "INSERT INTO sessions (id, session, expires) SELECT $1, $2, $3 ON CONFLICT(id) DO UPDATE SET expires = EXCLUDED.expires, session = EXCLUDED.session"
    );
    assert_eq!(sql::destroy_sql("sessions"), "DELETE FROM sessions WHERE id = $1");
    assert_eq!(sql::clear_sql("sessions"), "TRUNCATE sessions");
    assert_eq!(sql::count_sql("async_sessions"), "SELECT COUNT(*) FROM async_sessions");
}

#[test]
fn service_requests_validate_names() {
    let ok = NewService::try_from(CreateService { name: " Hulu ".to_string() }).unwrap();
    assert_eq!(ok.name.as_ref(), "Hulu");
    assert!(NewService::try_from(CreateService { name: "<b>".to_string() }).is_err());

    let row = recurio::routes::services::new_service_row(ok);
    assert_eq!(row.name.as_ref(), "Hulu");
}
