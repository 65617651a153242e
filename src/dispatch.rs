//! The decisions of one invocation: which backend, which operation, on what text.
use vstd::prelude::*;
use crate::command::{Action, Command};
use crate::error::Error;
use crate::query::{comment_pattern, is_select_query, regex_replaced, select_query, strip_sql_comments};
use crate::table::Table;
use crate::text::str_eq;

verus! {

/// The family of a backend.
#[derive(Debug, Clone, Copy, PartialEq, Eq, Structural)]
pub enum Type {
    Sql,
    Mongo,
    Neo4j,
    Redis,
}

/// The relational engines.
#[derive(Debug, Clone, Copy, PartialEq, Eq, Structural)]
pub enum SqlEngine {
    Postgres,
    MySql,
    Informix,
    MsSql,
    Oracle,
    Db2,
    Sqlite,
}

/// What a relational engine is asked to do.
#[derive(Debug, Clone, Copy, PartialEq, Eq, Structural)]
pub enum SqlStep {
    /// Run one reading statement and render its rows.
    Select,
    /// Run the statements one by one and report each.
    Execute,
    Tables,
    TableInfo,
}

/// The work that the decisions lead to.
#[derive(Debug, Clone)]
pub enum Plan {
    /// A relational engine runs `queries`, comments already removed.
    Sql { engine: SqlEngine, queries: String, step: SqlStep },
    /// MongoDB runs the call chain of the command.
    MongoRun,
    /// MongoDB lists its collections.
    MongoCollections,
    /// Redis runs the command line.
    RedisRun,
}

/// The family that an engine name belongs to: anything not named otherwise is relational.
pub open spec fn type_of_name(name: Seq<char>) -> Type {
    if name == "mongo"@ {
        Type::Mongo
    } else if name == "neo4j"@ {
        Type::Neo4j
    } else if name == "redis"@ {
        Type::Redis
    } else {
        Type::Sql
    }
}

pub open spec fn sql_engine_of(name: Seq<char>) -> Option<SqlEngine> {
    if name == "postgres"@ {
        Some(SqlEngine::Postgres)
    } else if name == "mysql"@ {
        Some(SqlEngine::MySql)
    } else if name == "informix"@ {
        Some(SqlEngine::Informix)
    } else if name == "mssql"@ {
        Some(SqlEngine::MsSql)
    } else if name == "oracle"@ {
        Some(SqlEngine::Oracle)
    } else if name == "db2"@ {
        Some(SqlEngine::Db2)
    } else if name == "sqlite"@ {
        Some(SqlEngine::Sqlite)
    } else {
        None
    }
}

/// The relational step for an action on comment-free text.
pub open spec fn sql_step_of(action: Action, queries: Seq<char>) -> SqlStep {
    match action {
        Action::Run => if select_query(queries) {
            SqlStep::Select
        } else {
            SqlStep::Execute
        },
        Action::Tables => SqlStep::Tables,
        Action::TableInfo => SqlStep::TableInfo,
    }
}

impl Type {
    /// The family of the engine called `name`.
    pub fn from_name(name: &str) -> (r: Type)
        ensures
            r == type_of_name(name@),
    {
        if str_eq(name, "mongo") {
            Type::Mongo
        } else if str_eq(name, "neo4j") {
            Type::Neo4j
        } else if str_eq(name, "redis") {
            Type::Redis
        } else {
            Type::Sql
        }
    }
}

impl SqlEngine {
    /// The relational engine called `name`, if there is one.
    pub fn from_name(name: &str) -> (r: Option<SqlEngine>)
        ensures
            r == sql_engine_of(name@),
    {
        if str_eq(name, "postgres") {
            Some(SqlEngine::Postgres)
        } else if str_eq(name, "mysql") {
            Some(SqlEngine::MySql)
        } else if str_eq(name, "informix") {
            Some(SqlEngine::Informix)
        } else if str_eq(name, "mssql") {
            Some(SqlEngine::MsSql)
        } else if str_eq(name, "oracle") {
            Some(SqlEngine::Oracle)
        } else if str_eq(name, "db2") {
            Some(SqlEngine::Db2)
        } else if str_eq(name, "sqlite") {
            Some(SqlEngine::Sqlite)
        } else {
            None
        }
    }
}

/// The operations every relational engine offers.
pub trait SqlExecutor {
    /// Runs the reading statement and renders its rows into `table`.
    fn select(&mut self, table: &mut Table) -> Result<(), Error>;

    /// Runs the statements one by one and reports each.
    fn execute(&mut self, table: &mut Table) -> Result<(), Error>;

    /// Lists the tables.
    fn tables(&mut self) -> Result<(), Error>;

    /// Describes the table named by the queries.
    fn table_info(&mut self, table: &mut Table) -> Result<(), Error>;

    /// The statement that describes the table named by the queries.
    fn table_info_query(&self) -> Result<String, Error>;
}

/// Decides what an invocation does. Relational text loses its comments first;
/// an engine name outside the known set, an action a backend does not offer,
/// and the Neo4j family are unsupported.
pub fn process(command: &Command, engine_type: Type) -> (r: Result<Plan, Error>)
    ensures
        engine_type == Type::Neo4j ==> r matches Err(Error::Unsupported(_)),
        engine_type == Type::Redis ==> (command.action == Action::Run ==> r matches Ok(Plan::RedisRun))
            && (command.action != Action::Run ==> r matches Err(Error::Unsupported(_))),
        engine_type == Type::Mongo ==> match command.action {
            Action::Run => r matches Ok(Plan::MongoRun),
            Action::Tables => r matches Ok(Plan::MongoCollections),
            Action::TableInfo => r matches Err(Error::Unsupported(_)),
        },
        engine_type == Type::Sql && sql_engine_of(command.engine@) is None ==> (r matches Err(
            Error::Unsupported(m),
        ) && m@ == "Engine "@ + command.engine@ + " is not supported"@),
        engine_type == Type::Sql && sql_engine_of(command.engine@) is Some ==> (r matches Ok(
            Plan::Sql { engine, queries, step },
        ) && Some(engine) == sql_engine_of(command.engine@) && queries@ == regex_replaced(comment_pattern(), command.queries@, "$1"@)
            && step == sql_step_of(command.action, queries@)),
{
    match engine_type {
        Type::Sql => {
            let queries = strip_sql_comments(command.queries.as_str());
            let engine = match SqlEngine::from_name(command.engine.as_str()) {
                Some(e) => e,
                None => {
                    let mut m = String::from_str("Engine ");
                    m.append(command.engine.as_str());
                    m.append(" is not supported");
                    return Err(Error::Unsupported(m));
                },
            };
            let step = match command.action {
                Action::Run => if is_select_query(queries.as_str()) {
                    SqlStep::Select
                } else {
                    SqlStep::Execute
                },
                Action::Tables => SqlStep::Tables,
                Action::TableInfo => SqlStep::TableInfo,
            };
            Ok(Plan::Sql { engine, queries, step })
        },
        Type::Mongo => match command.action {
            Action::Run => Ok(Plan::MongoRun),
            Action::Tables => Ok(Plan::MongoCollections),
            Action::TableInfo => Err(
                Error::Unsupported(String::from_str("Collection info not implemented for MongoDB")),
            ),
        },
        Type::Redis => match command.action {
            Action::Run => Ok(Plan::RedisRun),
            _ => Err(Error::Unsupported(String::from_str("Not applicable for Redis"))),
        },
        Type::Neo4j => Err(Error::Unsupported(String::from_str("Neo4j not implemented yet"))),
    }
}

} // verus!
