use dbeer::redis::{Command, Redis};
use dbeer::Error;

#[test]
fn get_reads_one_key() {
    assert_eq!(Command::convert("GET k").unwrap(), Command::Get("k".to_string()));
    assert_eq!(Command::convert("  TTL  session ").unwrap(), Command::Ttl("session".to_string()));
    assert_eq!(Command::convert("KEYS user:*").unwrap(), Command::Keys("user:*".to_string()));
    assert_eq!(Command::convert("EXISTS a").unwrap(), Command::Exists("a".to_string()));
}

#[test]
fn get_without_key_is_validation_error() {
    match Command::convert("GET ") {
        Err(Error::Validation(msg)) => assert_eq!(msg, "key is empty"),
        other => panic!("unexpected {:?}", other),
    }
}

#[test]
fn del_reads_every_key() {
    assert_eq!(
        Command::convert("DEL a b c").unwrap(),
        Command::Del(vec!["a".to_string(), "b".to_string(), "c".to_string()])
    );
    assert_eq!(
        Command::convert("DEL a   b").unwrap(),
        Command::Del(vec!["a".to_string(), "b".to_string()])
    );
    assert!(matches!(Command::convert("DEL"), Err(Error::Validation(_))));
}

#[test]
fn set_strips_one_pair_of_quotes() {
    assert_eq!(
        Command::convert("SET k \"v v\"").unwrap(),
        Command::SetKey { key: "k".to_string(), value: "v v".to_string() }
    );
    assert_eq!(
        Command::convert("SET k plain value").unwrap(),
        Command::SetKey { key: "k".to_string(), value: "plain value".to_string() }
    );
    match Command::convert("SET k") {
        Err(Error::Validation(msg)) => assert_eq!(msg, "Missing second value"),
        other => panic!("unexpected {:?}", other),
    }
}

#[test]
fn expire_reads_key_and_seconds() {
    assert_eq!(
        Command::convert("EXPIRE k 10").unwrap(),
        Command::Expire { key: "k".to_string(), seconds: 10 }
    );
    match Command::convert("EXPIRE k abc") {
        Err(Error::Validation(msg)) => assert_eq!(msg, "Failed to parse seconds as number"),
        other => panic!("unexpected {:?}", other),
    }
    match Command::convert("EXPIRE k") {
        Err(Error::Validation(msg)) => assert_eq!(msg, "Missing second value"),
        other => panic!("unexpected {:?}", other),
    }
    assert!(matches!(Command::convert("EXPIRE k 1 2"), Err(Error::Validation(_))));
}

#[test]
fn flushall_is_whole_line_only() {
    assert_eq!(Command::convert("FLUSHALL").unwrap(), Command::FlushAll);
    match Command::convert("FLUSHALLX") {
        Err(Error::Unsupported(msg)) => assert_eq!(msg, "Command 'FLUSHALLX' not supported!"),
        other => panic!("unexpected {:?}", other),
    }
}

#[test]
fn take_key_trims_the_argument() {
    assert_eq!(Command::take_key("GET   k  ", "GET").unwrap(), "k");
    assert!(matches!(Command::take_key("GET", "GET"), Err(Error::Validation(_))));
}

#[test]
fn run_reads_the_request_line() {
    let r = Redis::new("  GET name ");
    assert_eq!(r.run().unwrap(), Command::Get("name".to_string()));
}
