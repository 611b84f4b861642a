//! The SQL statements that create a schema and move a connection into it.
use vstd::prelude::*;

verus! {

/// The database backends whose schema statements this library knows.
#[derive(Clone, Copy, Debug, PartialEq, Eq, Structural)]
pub enum Backend {
    /// PostgreSQL: a schema inside the current database, selected through
    /// the search path.
    Postgres,
    /// MySQL: a database on the server, selected with `USE`.
    Mysql,
}

/// The text of the statement that creates `schema` unless it exists already.
///
/// PostgreSQL names the schema bare; MySQL quotes the database name with
/// backticks.
pub open spec fn ensure_sql(backend: Backend, schema: Seq<char>) -> Seq<char> {
    match backend {
        Backend::Postgres => "CREATE SCHEMA IF NOT EXISTS "@ + schema,
        Backend::Mysql => "CREATE DATABASE IF NOT EXISTS `"@ + schema + "`"@,
    }
}

/// The text of the statement that makes `schema` the one in which the
/// connection resolves unqualified table names.
pub open spec fn search_path_sql(backend: Backend, schema: Seq<char>) -> Seq<char> {
    match backend {
        Backend::Postgres => "SET SEARCH_PATH TO "@ + schema,
        Backend::Mysql => "USE `"@ + schema + "`"@,
    }
}

/// Law: the create statement is the fixed command text followed by the whole
/// requested name, unchanged: for PostgreSQL `CREATE SCHEMA IF NOT EXISTS `
/// (28 characters) and then the name; for MySQL
/// `CREATE DATABASE IF NOT EXISTS `` ` `` (31 characters), the name, and a
/// closing backtick.
pub proof fn law_ensure_statement_names_schema(backend: Backend, schema: Seq<char>)
    ensures
        backend is Postgres ==> {
            let sql = ensure_sql(backend, schema);
            &&& sql.len() == 28 + schema.len()
            &&& sql.take(28) == "CREATE SCHEMA IF NOT EXISTS "@
            &&& sql.skip(28) == schema
        },
        backend is Mysql ==> {
            let sql = ensure_sql(backend, schema);
            &&& sql.len() == 31 + schema.len() + 1
            &&& sql.take(31) == "CREATE DATABASE IF NOT EXISTS `"@
            &&& sql.subrange(31, 31 + schema.len() as int) == schema
            &&& sql.last() == '`'
        },
{
    reveal_strlit("CREATE SCHEMA IF NOT EXISTS ");
    reveal_strlit("CREATE DATABASE IF NOT EXISTS `");
    reveal_strlit("`");
    let sql = ensure_sql(backend, schema);
    match backend {
        Backend::Postgres => {
            assert(sql.take(28) =~= "CREATE SCHEMA IF NOT EXISTS "@);
            assert(sql.skip(28) =~= schema);
        },
        Backend::Mysql => {
            assert(sql.take(31) =~= "CREATE DATABASE IF NOT EXISTS `"@);
            assert(sql.subrange(31, 31 + schema.len() as int) =~= schema);
        },
    }
}

/// Law: the switch statement is the fixed command text followed by the whole
/// requested name, unchanged: for PostgreSQL `SET SEARCH_PATH TO `
/// (19 characters) and then the name; for MySQL `` USE ` `` (5 characters),
/// the name, and a closing backtick.
pub proof fn law_search_path_statement_names_schema(backend: Backend, schema: Seq<char>)
    ensures
        backend is Postgres ==> {
            let sql = search_path_sql(backend, schema);
            &&& sql.len() == 19 + schema.len()
            &&& sql.take(19) == "SET SEARCH_PATH TO "@
            &&& sql.skip(19) == schema
        },
        backend is Mysql ==> {
            let sql = search_path_sql(backend, schema);
            &&& sql.len() == 5 + schema.len() + 1
            &&& sql.take(5) == "USE `"@
            &&& sql.subrange(5, 5 + schema.len() as int) == schema
            &&& sql.last() == '`'
        },
{
    reveal_strlit("SET SEARCH_PATH TO ");
    reveal_strlit("USE `");
    reveal_strlit("`");
    let sql = search_path_sql(backend, schema);
    match backend {
        Backend::Postgres => {
            assert(sql.take(19) =~= "SET SEARCH_PATH TO "@);
            assert(sql.skip(19) =~= schema);
        },
        Backend::Mysql => {
            assert(sql.take(5) =~= "USE `"@);
            assert(sql.subrange(5, 5 + schema.len() as int) =~= schema);
        },
    }
}

/// Law: different names give different statements, on every backend; no two
/// schemas are ever created or selected by the same statement.
pub proof fn law_statements_tell_schemas_apart(backend: Backend, a: Seq<char>, b: Seq<char>)
    requires
        a != b,
    ensures
        ensure_sql(backend, a) != ensure_sql(backend, b),
        search_path_sql(backend, a) != search_path_sql(backend, b),
{
    law_ensure_statement_names_schema(backend, a);
    law_ensure_statement_names_schema(backend, b);
    law_search_path_statement_names_schema(backend, a);
    law_search_path_statement_names_schema(backend, b);
    if backend is Mysql {
        if ensure_sql(backend, a) == ensure_sql(backend, b) {
            assert(a.len() == b.len());
            assert(a =~= b);
        }
        if search_path_sql(backend, a) == search_path_sql(backend, b) {
            assert(a.len() == b.len());
            assert(a =~= b);
        }
    }
}

/// Builds the statement that creates `schema` if it does not exist yet.
pub fn ensure_schema_statement(backend: Backend, schema: &str) -> (sql: String)
    ensures
        sql@ == ensure_sql(backend, schema@),
        backend is Postgres ==> {
            &&& sql@.len() == 28 + schema@.len()
            &&& sql@.take(28) == "CREATE SCHEMA IF NOT EXISTS "@
            &&& sql@.skip(28) == schema@
        },
        backend is Mysql ==> {
            &&& sql@.len() == 31 + schema@.len() + 1
            &&& sql@.take(31) == "CREATE DATABASE IF NOT EXISTS `"@
            &&& sql@.subrange(31, 31 + schema@.len() as int) == schema@
            &&& sql@.last() == '`'
        },
{
    proof {
        law_ensure_statement_names_schema(backend, schema@);
    }
    match backend {
        Backend::Postgres => {
            let mut sql = String::from_str("CREATE SCHEMA IF NOT EXISTS ");
            sql.append(schema);
            sql
        },
        Backend::Mysql => {
            let mut sql = String::from_str("CREATE DATABASE IF NOT EXISTS `");
            sql.append(schema);
            sql.append("`");
            sql
        },
    }
}

/// Builds the statement that switches the connection to `schema`.
pub fn search_path_statement(backend: Backend, schema: &str) -> (sql: String)
    ensures
        sql@ == search_path_sql(backend, schema@),
        backend is Postgres ==> {
            &&& sql@.len() == 19 + schema@.len()
            &&& sql@.take(19) == "SET SEARCH_PATH TO "@
            &&& sql@.skip(19) == schema@
        },
        backend is Mysql ==> {
            &&& sql@.len() == 5 + schema@.len() + 1
            &&& sql@.take(5) == "USE `"@
            &&& sql@.subrange(5, 5 + schema@.len() as int) == schema@
            &&& sql@.last() == '`'
        },
{
    proof {
        law_search_path_statement_names_schema(backend, schema@);
    }
    match backend {
        Backend::Postgres => {
            let mut sql = String::from_str("SET SEARCH_PATH TO ");
            sql.append(schema);
            sql
        },
        Backend::Mysql => {
            let mut sql = String::from_str("USE `");
            sql.append(schema);
            sql.append("`");
            sql
        },
    }
}

} // verus!
