//! Statement-level counterparts of the database scenarios of this project:
//! each test runs a schema switch, or a series of pooled requests, against a
//! connection that only records the SQL it receives, and checks that SQL. No
//! database is involved, so no migration runs and no table is loaded; what is
//! checked is which statements a real connection would have executed.
use diesel_schemas::cache::SchemaCache;
use diesel_schemas::statement::Backend;
use diesel_schemas::switch::{SchemaOp, SchemaSwitch, Step};

#[derive(Default)]
struct RecordingConnection {
    received: Vec<String>,
}

impl RecordingConnection {
    fn run(&mut self, backend: Backend, op: SchemaOp, schema: &str) -> Result<(), String> {
        let (mut switch, mut sql) = SchemaSwitch::start(backend, op, schema);
        loop {
            self.received.push(sql.clone());
            match switch.advance::<String>(Ok(())) {
                Step::Execute(next) => sql = next,
                Step::Finished(result) => return result,
            }
        }
    }
}

/// What a pooled request for `schema` does with a shared set of known schemas.
fn pooled_request(cache: &mut SchemaCache, conn: &mut RecordingConnection, backend: Backend, schema: &str) -> Result<(), String> {
    let op = cache.op_for(schema);
    let outcome = conn.run(backend, op, schema);
    if SchemaCache::changes_cache(op, outcome.is_ok()) {
        cache.record(schema, op, &outcome);
    }
    outcome
}

#[test]
fn switch_schema() {
    let mut connection = RecordingConnection::default();
    connection
        .run(Backend::Postgres, SchemaOp::SetSchema, "new_schema")
        .expect("Failed to switch schema");
    assert_eq!(
        connection.received,
        vec!["CREATE SCHEMA IF NOT EXISTS new_schema".to_string(), "SET SEARCH_PATH TO new_schema".to_string()]
    );
}

#[test]
fn async_switch_schema_pg() {
    let mut connection = RecordingConnection::default();
    connection
        .run(Backend::Postgres, SchemaOp::SetSchema, "async_new_schema")
        .expect("Failed to switch schema");
    assert_eq!(
        connection.received,
        vec![
            "CREATE SCHEMA IF NOT EXISTS async_new_schema".to_string(),
            "SET SEARCH_PATH TO async_new_schema".to_string(),
        ]
    );
}

#[test]
fn async_switch_schema_mysql() {
    let mut connection = RecordingConnection::default();
    connection
        .run(Backend::Mysql, SchemaOp::SetSchema, "async_new_mysql_schema")
        .expect("Failed to switch schema");
    assert_eq!(
        connection.received,
        vec![
            "CREATE DATABASE IF NOT EXISTS `async_new_mysql_schema`".to_string(),
            "USE `async_new_mysql_schema`".to_string(),
        ]
    );
}

#[test]
fn cached_pool_schema_pg() {
    let mut cache = SchemaCache::new();
    let mut first = RecordingConnection::default();
    pooled_request(&mut cache, &mut first, Backend::Postgres, "new_pool_schema")
        .expect("Failed to get connection from pool with new schema");
    assert_eq!(
        first.received,
        vec!["CREATE SCHEMA IF NOT EXISTS new_pool_schema".to_string(), "SET SEARCH_PATH TO new_pool_schema".to_string()]
    );
    assert!(cache.contains("new_pool_schema"));

    let mut second = RecordingConnection::default();
    pooled_request(&mut cache, &mut second, Backend::Postgres, "new_pool_schema")
        .expect("Failed to get connection from pool with new schema");
    assert_eq!(second.received, vec!["SET SEARCH_PATH TO new_pool_schema".to_string()]);
}

#[test]
fn cached_pool_schema_mysql() {
    let mut cache = SchemaCache::new();
    let mut first = RecordingConnection::default();
    pooled_request(&mut cache, &mut first, Backend::Mysql, "new_mysql_cached_schema")
        .expect("Failed to get connection from pool with new schema");
    assert_eq!(
        first.received,
        vec![
            "CREATE DATABASE IF NOT EXISTS `new_mysql_cached_schema`".to_string(),
            "USE `new_mysql_cached_schema`".to_string(),
        ]
    );

    let mut second = RecordingConnection::default();
    pooled_request(&mut cache, &mut second, Backend::Mysql, "new_mysql_cached_schema")
        .expect("Failed to get connection from pool with new schema");
    assert_eq!(second.received, vec!["USE `new_mysql_cached_schema`".to_string()]);
}

#[test]
fn cached_pool_failed_create_is_retried() {
    let mut cache = SchemaCache::new();
    let op = cache.op_for("tenant");
    let (mut switch, _create) = SchemaSwitch::start(Backend::Postgres, op, "tenant");
    let outcome = match switch.advance(Err("permission denied".to_string())) {
        Step::Finished(result) => result,
        Step::Execute(_) => panic!("a failed create ends the switch"),
    };
    if SchemaCache::changes_cache(op, outcome.is_ok()) {
        cache.record("tenant", op, &outcome);
    }
    assert!(outcome.is_err());
    assert_eq!(cache.op_for("tenant"), SchemaOp::SetSchema);
}

