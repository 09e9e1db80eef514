use marius_forge::db::introspect::{parse_check_length_limit, parse_sentinel};

#[test]
fn parse_check_simple() {
    assert_eq!(
        parse_check_length_limit("(length(label) <= 255)"),
        Some(255)
    );
}

#[test]
fn parse_check_char_length() {
    assert_eq!(
        parse_check_length_limit("(char_length(bio) <= 1000)"),
        Some(1000)
    );
}

#[test]
fn parse_check_unknown() {
    assert_eq!(parse_check_length_limit("(label IS NOT NULL)"), None);
}

#[test]
fn parse_check_reversed_operands_not_supported() {
    assert_eq!(parse_check_length_limit("(255 >= length(label))"), None);
}

#[test]
fn parse_check_non_literal_expression_rejected() {
    assert_eq!(parse_check_length_limit("(length(label) <= 2*1000)"), None);
}

#[test]
fn parse_check_negative_bound_rejected() {
    assert_eq!(parse_check_length_limit("(length(label) <= -5)"), None);
}

#[test]
fn parse_check_tolerates_whitespace_variance() {
    assert_eq!(
        parse_check_length_limit("(length(label)   <=   255 )"),
        Some(255)
    );
}

#[test]
fn sentinel_simple() {
    assert_eq!(parse_sentinel("marius:sentinel=0"), Some("0".to_string()));
}

#[test]
fn sentinel_negative() {
    assert_eq!(parse_sentinel("marius:sentinel=-1"), Some("-1".to_string()));
}

#[test]
fn sentinel_composite_comment() {
    assert_eq!(
        parse_sentinel("Colonne de liaison ; marius:sentinel=0"),
        Some("0".to_string())
    );
}

#[test]
fn sentinel_absent() {
    assert_eq!(parse_sentinel("Description sans annotation"), None);
}

#[test]
fn sentinel_empty_comment() {
    assert_eq!(parse_sentinel(""), None);
}

#[test]
fn sentinel_key_without_value() {
    assert_eq!(parse_sentinel("marius:sentinel="), None);
}
