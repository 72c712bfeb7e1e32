use pg_boundary::classify::{OperationType, identify_operation_type};

#[test]
fn classifies_select_with_leading_whitespace_and_mixed_case() {
    assert_eq!(identify_operation_type("  SeLeCt 1"), OperationType::Select);
}

#[test]
fn classifies_update() {
    assert_eq!(identify_operation_type("update t set x=1"), OperationType::Update);
}

#[test]
fn classifies_unknown_verb() {
    assert_eq!(identify_operation_type("vacuum"), OperationType::Unknown);
}

#[test]
fn classifies_empty_text() {
    assert_eq!(identify_operation_type(""), OperationType::Unknown);
}

#[test]
fn classifies_insert() {
    assert_eq!(
        identify_operation_type("INSERT INTO t VALUES (1)"),
        OperationType::Insert
    );
}

#[test]
fn classifies_delete() {
    assert_eq!(identify_operation_type("DeLeTe FROM t"), OperationType::Delete);
}

#[test]
fn classifies_whitespace_only_text() {
    assert_eq!(identify_operation_type(" \t\n  "), OperationType::Unknown);
}

#[test]
fn keyword_must_be_a_whole_token() {
    assert_eq!(identify_operation_type("selectx"), OperationType::Unknown);
    assert_eq!(identify_operation_type("select* from t"), OperationType::Unknown);
}

#[test]
fn keyword_alone_is_enough() {
    assert_eq!(identify_operation_type("select"), OperationType::Select);
}

#[test]
fn tab_and_newline_delimit_the_first_token() {
    assert_eq!(identify_operation_type("\n\tselect\n1"), OperationType::Select);
}

#[test]
fn cte_prefix_is_not_recognized() {
    assert_eq!(
        identify_operation_type("with x as (select 1) select * from x"),
        OperationType::Unknown
    );
}

#[test]
fn leading_comment_is_not_skipped() {
    assert_eq!(
        identify_operation_type("-- a comment\nselect 1"),
        OperationType::Unknown
    );
}

#[test]
fn leading_vertical_tab_is_trimmed() {
    assert_eq!(identify_operation_type("\u{000B}select 1"), OperationType::Select);
}

#[test]
fn trailing_unicode_whitespace_is_trimmed() {
    assert_eq!(identify_operation_type("select\u{000B}"), OperationType::Select);
    assert_eq!(identify_operation_type("\u{00A0}select\u{00A0}"), OperationType::Select);
}

#[test]
fn ideographic_space_is_trimmed() {
    assert_eq!(
        identify_operation_type("\u{3000}update t set x=1"),
        OperationType::Update
    );
}

#[test]
fn interior_non_ascii_whitespace_does_not_split_the_token() {
    assert_eq!(identify_operation_type("select\u{00A0}1"), OperationType::Unknown);
    assert_eq!(identify_operation_type("sele\u{00A0}ct"), OperationType::Unknown);
}

#[test]
fn unicode_whitespace_only_text_is_unknown() {
    assert_eq!(identify_operation_type("\u{00A0}\u{2028}\u{3000}"), OperationType::Unknown);
}
