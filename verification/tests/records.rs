use startsmall::records::{add_record, read_rows};

#[test]
fn records_are_read() {
    assert_eq!(
        read_rows("a,b\n\"c,\"\"d\",e\n").unwrap(),
        vec![vec!["a".to_string(), "b".to_string()], vec!["c,\"d".to_string(), "e".to_string()]]
    );
    assert_eq!(read_rows("").unwrap(), Vec::<Vec<String>>::new());
    assert_eq!(read_rows("only\r\n\r\nlines").unwrap().len(), 2);
}

#[test]
fn the_first_error_is_reported() {
    assert_eq!(
        read_rows("a,b\nc\nd,e,f\n").unwrap_err(),
        "CSV error: record 1 (line: 2, byte: 4): found record with 1 fields, but the previous \
         record has 2 fields"
    );
}

#[test]
fn records_are_added_until_one_fails() {
    let mut rows = Vec::new();
    assert_eq!(add_record(&mut rows, Ok(vec!["a".to_string()])), Ok(()));
    assert_eq!(add_record(&mut rows, Err("bad".to_string())), Err("bad".to_string()));
    assert_eq!(rows, vec![vec!["a".to_string()]]);
}
