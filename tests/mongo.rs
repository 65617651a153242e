use dbeer::mongo::{parse_query, Function, SubFunction};
use dbeer::Error;

#[test]
fn test_from_function() {
    if let Ok(mf) = Function::from("find()", None) {
        assert_eq!(mf, Function::Find("".to_string(), SubFunction::Empty));
    }

    if let Ok(mf) = Function::from(r#"find({ "field": "value" }).sort({ "field": -1 })"#, None) {
        assert_eq!(
            mf,
            Function::Find(
                r#"{ "field": "value" }"#.to_string(),
                SubFunction::Sort(r#"{ "field": -1 }"#.to_string())
            )
        );
    }

    if let Ok(mf) = Function::from(r#"find().limit(10)"#, None) {
        assert_eq!(mf, Function::Find("".to_string(), SubFunction::Limit(10)));
    }

    if let Ok(mf) = Function::from(r#"find({ "field": "value" }).skip(2)"#, None) {
        assert_eq!(mf, Function::Find("".to_string(), SubFunction::Skip(2)));
    }
}

#[test]
fn test_from_drop() {
    let input = "drop()";
    let expected = Function::Drop;
    let result = Function::from(input, None).unwrap();
    assert_eq!(result, expected);
}

#[test]
fn test_from_drop_with_whitespace() {
    let input = "drop( )";
    let expected = Function::Drop;
    let result = Function::from(input, None).unwrap();
    assert_eq!(result, expected);
}

#[test]
fn test_from_update_one() {
    let input = r#"updateOne({ "price": 99 }, { $set: { "price": 98 } })"#;
    let expected = Function::UpdateOne(r#"{ "price": 99 }, { $set: { "price": 98 } }"#.to_string());
    let result = Function::from(input, None).unwrap();
    assert_eq!(result, expected);
}

#[test]
fn test_from_unsupported_function() {
    let input = r#"replace({"name": "John"})"#;
    let err = Function::from(input, None).unwrap_err();
    match err {
        Error::Parse(msg) => {
            assert!(msg.contains("MongoDB function not supported"));
            assert!(msg.contains(input));
        }
        _ => panic!("Expected Error::Parse"),
    }
}

#[test]
fn test_from_invalid_format_missing_parentheses() {
    let input = r#"find{"name": "John"}"#;
    let err = Function::from(input, None).unwrap_err();
    match err {
        Error::Parse(msg) => {
            assert!(msg.contains("MongoDB function not supported"));
            assert!(msg.contains(input));
        }
        _ => panic!("Expected Error::Parse"),
    }
}

#[test]
fn test_from_unsupported() {
    let input = "lookup";
    let err = Function::from(input, None).unwrap_err();
    match err {
        Error::Parse(msg) => {
            assert!(msg.contains("MongoDB function not supported"));
            assert!(msg.contains(input));
        }
        _ => panic!("Expected Error::Parse"),
    }
}

#[test]
fn chain_find_without_arguments() {
    let (coll, f) = parse_query("coll.find()").unwrap();
    assert_eq!(coll, "coll");
    assert_eq!(f, Function::Find("".to_string(), SubFunction::Empty));
}

#[test]
fn chain_with_db_prefix_and_limit() {
    let (coll, f) = parse_query("db.coll.find({\"a\":1}).limit(10)").unwrap();
    assert_eq!(coll, "coll");
    assert_eq!(f, Function::Find("{\"a\":1}".to_string(), SubFunction::Limit(10)));
}

#[test]
fn chain_drop() {
    let (coll, f) = parse_query("coll.drop()").unwrap();
    assert_eq!(coll, "coll");
    assert_eq!(f, Function::Drop);
}

#[test]
fn chain_unknown_verb_is_parse_error() {
    match parse_query("coll.bogus()") {
        Err(Error::Parse(msg)) => assert!(msg.contains("coll.bogus()")),
        other => panic!("unexpected {:?}", other),
    }
}

#[test]
fn chain_without_call_is_bad_format() {
    match parse_query("coll") {
        Err(Error::Parse(msg)) => assert_eq!(msg, "MongoDB bad format: coll"),
        other => panic!("unexpected {:?}", other),
    }
    match parse_query("db.coll") {
        Err(Error::Parse(msg)) => assert_eq!(msg, "Error parsing function: db.coll"),
        other => panic!("unexpected {:?}", other),
    }
}

#[test]
fn find_with_modifiers() {
    assert_eq!(
        Function::from("find({})", Some("sort({\"a\": -1})")).unwrap(),
        Function::Find("{}".to_string(), SubFunction::Sort("{\"a\": -1}".to_string()))
    );
    assert_eq!(
        Function::from("find()", Some("skip(5)")).unwrap(),
        Function::Find("".to_string(), SubFunction::Skip(5))
    );
    assert_eq!(
        Function::from("find()", Some("project({})")).unwrap(),
        Function::Find("".to_string(), SubFunction::Empty)
    );
}

#[test]
fn numeric_modifier_out_of_range_is_validation_error() {
    match Function::from("find()", Some("skip(99999999999999999999)")) {
        Err(Error::Validation(msg)) => assert_eq!(msg, "skip parameter could not be cast to a number"),
        other => panic!("unexpected {:?}", other),
    }
    match Function::from("find()", Some("limit(9223372036854775808)")) {
        Err(Error::Validation(msg)) => assert_eq!(msg, "limit parameter could not be cast to a number"),
        other => panic!("unexpected {:?}", other),
    }
}

#[test]
fn every_verb_is_recognized() {
    assert_eq!(Function::from("findOne({})", None).unwrap(), Function::FindOne("{}".to_string()));
    assert_eq!(Function::from("countDocuments()", None).unwrap(), Function::CountDocuments("".to_string()));
    assert_eq!(Function::from("insertOne({\"a\":1})", None).unwrap(), Function::InsertOne("{\"a\":1}".to_string()));
    assert_eq!(Function::from("insertMany([{}])", None).unwrap(), Function::InsertMany("[{}]".to_string()));
    assert_eq!(Function::from("deleteOne({})", None).unwrap(), Function::DeleteOne("{}".to_string()));
    assert_eq!(Function::from("deleteMany({})", None).unwrap(), Function::DeleteMany("{}".to_string()));
    assert_eq!(Function::from("updateMany({}, {$set: {}})", None).unwrap(), Function::UpdateMany("{}, {$set: {}}".to_string()));
}

#[test]
fn call_parts_split_name_and_arguments() {
    let (name, args) = Function::get_function_and_params("find({\"a\": 1})").unwrap();
    assert_eq!(name, "find");
    assert_eq!(args, "{\"a\": 1}");
    assert!(Function::get_function_and_params("f((x))").is_err());
    assert!(Function::get_function_and_params("(x)").is_err());
}

#[test]
fn update_arguments_split_at_set() {
    let (q, u) = Function::get_query_and_set(r#"{ "price": 99 }, { $set: { "price": 98 } }"#).unwrap();
    assert_eq!(q, r#"{ "price": 99 }"#);
    assert_eq!(u, r#"{ $set: { "price": 98 } }"#);
    match Function::get_query_and_set("{ \"a\": 1 }") {
        Err(Error::Parse(msg)) => assert_eq!(msg, "$set not found in update"),
        other => panic!("unexpected {:?}", other),
    }
}
