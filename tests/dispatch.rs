use dbeer::command::{Action, Command};
use dbeer::dispatch::{process, Plan, SqlEngine, SqlStep, Type};
use dbeer::Error;

fn command(engine: &str, queries: &str, action: Action) -> Command {
    let mut c = Command::new();
    c.engine = engine.to_string();
    c.queries = queries.to_string();
    c.action = action;
    c
}

#[test]
fn new_command_defaults() {
    let c = Command::new();
    assert_eq!(c.dest_folder, "/tmp");
    assert_eq!(c.header_style_link, "Type");
    assert_eq!(c.action, Action::Run);
    assert!(c.engine.is_empty() && c.queries.is_empty());
}

#[test]
fn sql_select_is_planned_after_comment_stripping() {
    let c = command("postgres", "-- note\nSELECT id FROM t", Action::Run);
    match process(&c, Type::from_name("postgres")).unwrap() {
        Plan::Sql { engine, queries, step } => {
            assert_eq!(engine, SqlEngine::Postgres);
            assert_eq!(queries, "\nSELECT id FROM t");
            assert_eq!(step, SqlStep::Select);
        }
        other => panic!("unexpected {:?}", other),
    }
}

#[test]
fn sql_statements_are_executed() {
    let c = command("sqlite", "delete from t; insert into t values (1)", Action::Run);
    match process(&c, Type::Sql).unwrap() {
        Plan::Sql { step, .. } => assert_eq!(step, SqlStep::Execute),
        other => panic!("unexpected {:?}", other),
    }
}

#[test]
fn unknown_sql_engine_is_unsupported() {
    let c = command("cobol", "select 1", Action::Run);
    match process(&c, Type::from_name("cobol")) {
        Err(Error::Unsupported(msg)) => assert_eq!(msg, "Engine cobol is not supported"),
        other => panic!("unexpected {:?}", other),
    }
}

#[test]
fn backend_specific_refusals() {
    assert!(matches!(process(&command("mongo", "", Action::TableInfo), Type::Mongo), Err(Error::Unsupported(_))));
    assert!(matches!(process(&command("redis", "", Action::Tables), Type::Redis), Err(Error::Unsupported(_))));
    assert!(matches!(process(&command("neo4j", "", Action::Run), Type::Neo4j), Err(Error::Unsupported(_))));
    assert!(matches!(process(&command("redis", "GET k", Action::Run), Type::Redis), Ok(Plan::RedisRun)));
    assert!(matches!(process(&command("mongo", "c.find()", Action::Tables), Type::Mongo), Ok(Plan::MongoCollections)));
}

#[test]
fn engine_families_and_codes() {
    assert_eq!(Type::from_name("mongo"), Type::Mongo);
    assert_eq!(Type::from_name("redis"), Type::Redis);
    assert_eq!(Type::from_name("mysql"), Type::Sql);
    assert_eq!(Action::from_code("2").unwrap(), Action::Tables);
    assert!(matches!(Action::from_code("7"), Err(Error::Config(_))));
}
