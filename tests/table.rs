use dbeer::clock::{output_path, stamp, LocalTime};
use dbeer::table::{add_spaces, hi};
use dbeer::{BorderStyle, Error, Header, Table};

fn table(style: BorderStyle, names: &[&str], rows: &[&[&str]]) -> Table {
    let mut t = Table::new("/tmp".to_string(), "Type".to_string(), style);
    t.set_headers(&names.iter().map(|n| n.to_string()).collect());
    for r in rows {
        t.ingest_row(&r.iter().map(|v| v.to_string()).collect()).unwrap();
    }
    t
}

#[test]
fn select_id_end_to_end() {
    let t = table(BorderStyle::Simple, &["id"], &[&["1"], &["2"]]);
    let lines = t.generate().unwrap();
    assert_eq!(
        lines,
        vec![
            "┌────┬────┐",
            "│ #  │ ID │",
            "├────┼────┤",
            "│ #1 │ 1  │",
            "├────┼────┤",
            "│ #2 │ 2  │",
            "└────┴────┘",
        ]
    );
    assert_eq!(t.headers[0].length, 4);
    assert_eq!(t.headers[1].length, 4);
}

#[test]
fn line_count_is_three_plus_two_per_row() {
    let t = table(BorderStyle::Default, &["a", "b"], &[&["1", "2"], &["3", "4"], &["5", "6"]]);
    assert_eq!(t.generate().unwrap().len(), 3 + 2 * 3);
}

#[test]
fn widths_cover_names_and_cells() {
    let t = table(BorderStyle::Double, &["name", "x"], &[&["alpha", "é"], &["β", "long value"]]);
    assert_eq!(t.headers[1].length, 2 + 5);
    assert_eq!(t.headers[2].length, 2 + "long value".chars().count());
    for (j, h) in t.headers.iter().enumerate() {
        for row in &t.rows {
            assert!(h.length >= row[j].chars().count() + 1);
        }
    }
}

#[test]
fn content_lines_hold_one_vertical_more_than_columns() {
    let t = table(BorderStyle::Rounded, &["a", "b", "c"], &[&["x", "y", "z"], &["1", "22", "333"]]);
    let lines = t.generate().unwrap();
    for i in [1usize, 3, 5] {
        assert_eq!(lines[i].matches('│').count(), 3 + 1 + 1);
    }
}

#[test]
fn one_row_one_column_draws_five_lines() {
    let t = table(BorderStyle::Default, &["v"], &[&["1"]]);
    let lines = t.generate().unwrap();
    assert_eq!(lines.len(), 5);
    assert!(lines[4].starts_with('┗'));
    assert!(lines[4].ends_with('┛'));
    assert!(!lines[4].contains('╋'));
    assert!(!lines[4].contains('┣'));
    assert!(!lines[4].contains('┫'));
}

#[test]
fn resolving_a_style_twice_gives_equal_borders() {
    for s in [BorderStyle::Default, BorderStyle::Simple, BorderStyle::Rounded, BorderStyle::Double, BorderStyle::SimpleDouble] {
        assert_eq!(s.get(), s.get());
    }
    let b = BorderStyle::SimpleDouble.get();
    assert_eq!((b.horizontal, b.vertical, b.intersection), ('═', '│', '╪'));
}

#[test]
fn unknown_border_code_is_configuration_error() {
    assert_eq!(BorderStyle::from_code("4").unwrap(), BorderStyle::Double);
    assert!(matches!(BorderStyle::from_code("9"), Err(Error::Config(_))));
}

#[test]
fn ingest_rejects_wrong_cell_count() {
    let mut t = table(BorderStyle::Default, &["a", "b"], &[]);
    assert!(matches!(t.ingest_row(&vec!["1".to_string()]), Err(Error::Shape(_))));
    assert!(t.rows.is_empty());
}

#[test]
fn generate_rejects_empty_or_ragged_tables() {
    let t = table(BorderStyle::Default, &["a"], &[]);
    assert!(matches!(t.generate(), Err(Error::Shape(_))));
    let mut t = table(BorderStyle::Default, &["a"], &[&["1"]]);
    t.rows[0].push("extra".to_string());
    assert!(matches!(t.generate(), Err(Error::Shape(_))));
}

#[test]
fn update_headers_and_rows_draws_given_shape() {
    let mut t = Table::new("/out".to_string(), "Type".to_string(), BorderStyle::Simple);
    let headers = vec![Header::row_counter(), Header::new("n")];
    let rows = vec![vec![" #1".to_string(), " 7".to_string()]];
    let lines = t.update_headers_and_rows(headers, rows).unwrap();
    assert_eq!(lines[3], "│ #1 │ 7 │");
}

#[test]
fn header_name_is_upper_case_after_a_space() {
    let h = Header::new("user_id");
    assert_eq!(h.name, " USER_ID");
    assert_eq!(h.length, 9);
    let c = Header::row_counter();
    assert_eq!((c.name.as_str(), c.length), (" #", 4));
}

#[test]
fn add_spaces_pads_by_characters() {
    assert_eq!(add_spaces("ab", 5), "ab   ");
    assert_eq!(add_spaces("éé", 3), "éé ");
    assert_eq!(add_spaces("abcdef", 3), "abcdef");
}

#[test]
fn highlight_directives_in_position_order() {
    let t = table(BorderStyle::Default, &["id", "name"], &[]);
    assert_eq!(
        hi(&t.headers, "Type"),
        "syn match header1 '\\<#\\>' | hi link header1 Type | syn match header2 '\\<ID\\>' | hi link header2 Type | syn match header3 '\\<NAME\\>' | hi link header3 Type |"
    );
}

#[test]
fn output_path_is_stamped() {
    let t = LocalTime { year: 2024, month: 3, day: 7, hour: 9, minute: 5, second: 1 };
    assert_eq!(stamp(&t), "20240307-090501");
    assert_eq!(output_path("/tmp", &t, false), "/tmp/20240307-090501.dbeer");
    assert_eq!(output_path("out", &t, true), "out/20240307-090501.dbeer.json");
    let far = LocalTime { year: 12024, month: 12, day: 31, hour: 23, minute: 59, second: 59 };
    assert_eq!(stamp(&far), "+120241231-235959");
}

#[test]
fn output_path_now_has_the_expected_shape() {
    let t = Table::new("/data".to_string(), "Type".to_string(), BorderStyle::Default);
    let p = t.create_dbeer_file_format();
    assert!(p.starts_with("/data/"));
    assert!(p.ends_with(".dbeer"));
    assert_eq!(p.len(), "/data/".len() + 15 + ".dbeer".len());
    assert!(t.create_dbeer_json_file_format().ends_with(".dbeer.json"));
}

#[test]
fn tabulate_builds_and_draws_a_result_set() {
    let mut t = Table::new("/tmp".to_string(), "Type".to_string(), BorderStyle::Simple);
    let names = vec!["id".to_string()];
    let rows = vec![vec!["1".to_string()], vec!["2".to_string()]];
    let lines = t.tabulate(&names, &rows).unwrap().unwrap();
    assert_eq!(lines[1], "│ #  │ ID │");
    assert_eq!(lines.len(), 7);
    assert_eq!(t.rows, vec![vec![" #1".to_string(), " 1".to_string()], vec![" #2".to_string(), " 2".to_string()]]);
    assert_eq!((t.headers[0].length, t.headers[1].length), (4, 4));
}

#[test]
fn tabulate_short_circuits_and_checks_shape() {
    let mut t = Table::new("/tmp".to_string(), "Type".to_string(), BorderStyle::Simple);
    assert_eq!(t.tabulate(&vec!["a".to_string()], &vec![]).unwrap(), None);
    let ragged = vec![vec!["1".to_string()], vec!["1".to_string(), "2".to_string()]];
    assert!(matches!(t.tabulate(&vec!["a".to_string()], &ragged), Err(Error::Shape(_))));
    assert!(t.headers.is_empty() && t.rows.is_empty());
}
