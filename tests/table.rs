use estimation_distributions::{
    detect_header, parse_header_with_separator, parse_task_cells, Error, HeaderInfo, TaskCells,
};

fn cells(c: &TaskCells) -> (&str, &str, &str, &str) {
    (c.name.as_str(), c.min.as_str(), c.mode.as_str(), c.max.as_str())
}

#[test]
fn comma_separated_table() {
    let rows = parse_task_cells("name,min,mode,max\nDesign,1,2,4\nBuild,3,5,9\n").unwrap();
    assert_eq!(rows.len(), 2);
    assert_eq!(cells(&rows[0]), ("Design", "1", "2", "4"));
    assert_eq!(cells(&rows[1]), ("Build", "3", "5", "9"));
}

#[test]
fn tab_separated_table_with_other_column_order() {
    let rows = parse_task_cells("max\tname\tnotes\tmode\tmin\r\n10\tTest\tx\t5\t0\r\n").unwrap();
    assert_eq!(rows.len(), 1);
    assert_eq!(cells(&rows[0]), ("Test", "0", "5", "10"));
}

#[test]
fn semicolon_header_in_mixed_case() {
    let rows = parse_task_cells("Name;MIN;Mode;Max\nA;1.5;2;2.5").unwrap();
    assert_eq!(cells(&rows[0]), ("A", "1.5", "2", "2.5"));
}

#[test]
fn header_only_gives_no_rows() {
    assert!(parse_task_cells("name,min,mode,max").unwrap().is_empty());
}

#[test]
fn empty_text_has_no_header() {
    assert!(matches!(parse_task_cells(""), Err(Error::MissingHeader)));
}

#[test]
fn header_without_all_columns_is_invalid() {
    assert!(matches!(parse_task_cells("name,min,max\nA,1,2"), Err(Error::InvalidHeader)));
    assert!(matches!(parse_task_cells("name min mode max\n"), Err(Error::InvalidHeader)));
}

#[test]
fn short_row_is_missing_a_field() {
    assert!(matches!(
        parse_task_cells("name,min,mode,max\nA,1,2,3\nB,1,2"),
        Err(Error::MissingField)
    ));
}

#[test]
fn last_duplicate_column_wins() {
    let h = parse_header_with_separator("min,name,MIN,mode,max", ',').unwrap();
    assert_eq!(
        h,
        HeaderInfo { column_idx_name: 1, column_idx_min: 2, column_idx_mode: 3, column_idx_max: 4 }
    );
}

#[test]
fn wrong_separator_finds_no_columns() {
    assert_eq!(parse_header_with_separator("name,min,mode,max", ';'), None);
    assert!(parse_header_with_separator("name;min;mode;max", ';').is_some());
}

#[test]
fn separators_are_tried_comma_tab_semicolon() {
    let (h, sep) = detect_header("name,min,mode,max").unwrap();
    assert_eq!(sep, ',');
    assert_eq!(h.column_idx_max, 3);
    assert_eq!(detect_header("name\tmin\tmode\tmax").unwrap().1, '\t');
    assert_eq!(detect_header("mode;max;name;min").unwrap(), (
        HeaderInfo { column_idx_name: 2, column_idx_min: 3, column_idx_mode: 0, column_idx_max: 1 },
        ';'
    ));
    assert_eq!(detect_header("name|min|mode|max"), None);
}
