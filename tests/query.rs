use dbeer::query::{
    is_insert_update_or_delete, is_select_query, numbered_status, split_queries, strip_sql_comments,
    StatementOutcome,
};

#[test]
fn test_strip() {
    let s = r#"-- comment
        select * from -- comment 
        -- table /* where */
        "#;

    assert!(!strip_sql_comments(s).contains("table"));
    assert!(!strip_sql_comments(s).contains("-- comment"));
    assert!(!strip_sql_comments(s).contains("/* where */"));
}

#[test]
fn test_split_queries() {
    let s = r#"
        delete * from some where id = 1; 
        delete * from some2 where id = 1; 
        create table lala {
            id increment
        }
        "#;

    let split = split_queries(s);
    assert_eq!(3, split.len());
    assert_eq!("delete * from some2 where id = 1", split[1]);

    let s = "drop table dummies;";
    let split = split_queries(s);
    assert_eq!(1, split.len());
}

#[test]
fn strip_keeps_string_literals_and_removes_block_comments() {
    let s = "select '-- not a comment', \"/* kept */\" /* gone */ from t -- tail";
    assert_eq!(
        strip_sql_comments(s),
        "select '-- not a comment', \"/* kept */\"  from t "
    );
}

#[test]
fn select_detection_is_case_and_space_insensitive() {
    assert!(is_select_query("  SELECT id FROM t"));
    assert!(is_select_query("select 1"));
    assert!(!is_select_query("update t set a = 1"));
}

#[test]
fn row_changing_statements() {
    assert!(is_insert_update_or_delete(" INSERT INTO t VALUES (1)"));
    assert!(is_insert_update_or_delete("Update t set a = 1"));
    assert!(is_insert_update_or_delete("delete from t"));
    assert!(!is_insert_update_or_delete("create table t (a int)"));
}

#[test]
fn split_drops_empty_statements() {
    assert_eq!(split_queries(" a ;; ;b"), vec!["a".to_string(), "b".to_string()]);
    assert!(split_queries("  ").is_empty());
}

#[test]
fn numbered_status_lines() {
    assert_eq!(numbered_status(0, &StatementOutcome::Affected(3)), "1)   Row(s) affected: 3");
    assert_eq!(numbered_status(9, &StatementOutcome::Done), "10)   Statement executed correctly.");
    assert_eq!(numbered_status(1, &StatementOutcome::Failed("syntax error".to_string())), "2)   syntax error");
}
