//! Schema switching for database connections.
//!
//! A relational database can hold many schemas (PostgreSQL) or databases
//! (MySQL) side by side; multi-tenant applications often give each tenant one.
//! This library decides which SQL statements move a connection into a schema,
//! in which order they run and how a failure ends the switch, and keeps the
//! record of schemas already created so that a pool of connections can skip
//! the `CREATE` statement for them.
//!
//! - `statement`: the SQL text of each statement, per database backend.
//! - `switch`: the step-by-step protocol of one schema operation on one
//!   connection.
//! - `cache`: the set of schemas known to exist, and the protocol choice that
//!   it drives for pooled connections.
pub mod cache;
pub mod statement;
pub mod switch;
