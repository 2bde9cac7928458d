use tabnotes::form::parse_entry_form;
use tabnotes::types::DbError;

#[test]
fn full_body_decodes() {
    let f = parse_entry_form(b"url=https%3A%2F%2Fexample.com&title=Ex+ample&notes=")
        .expect("well-formed body must decode");
    assert_eq!(f.url, b"https://example.com".to_vec());
    assert_eq!(f.title, b"Ex ample".to_vec());
    assert_eq!(f.notes, b"".to_vec());
}

#[test]
fn field_order_does_not_matter() {
    let f = parse_entry_form(b"notes=n&url=u&title=t").expect("must decode");
    assert_eq!(f.url, b"u".to_vec());
    assert_eq!(f.title, b"t".to_vec());
    assert_eq!(f.notes, b"n".to_vec());
}

#[test]
fn missing_title_is_invalid_input() {
    let r = parse_entry_form(b"url=https%3A%2F%2Fexample.com&notes=");
    assert!(matches!(r, Err(DbError::InvalidInput)));
}

#[test]
fn empty_body_is_invalid_input() {
    assert!(matches!(parse_entry_form(b""), Err(DbError::InvalidInput)));
}

#[test]
fn repeated_field_is_invalid_input() {
    let r = parse_entry_form(b"url=a&title=b&notes=c&title=d");
    assert!(matches!(r, Err(DbError::InvalidInput)));
}

#[test]
fn malformed_escape_is_invalid_input() {
    let r = parse_entry_form(b"url=a&title=%G1&notes=c");
    assert!(matches!(r, Err(DbError::InvalidInput)));
    let r = parse_entry_form(b"url=a&title=%2&notes=c");
    assert!(matches!(r, Err(DbError::InvalidInput)));
}

#[test]
fn unknown_keys_are_ignored() {
    let f = parse_entry_form(b"extra=1&url=u&title=t&notes=n&more=2").expect("must decode");
    assert_eq!(f.url, b"u".to_vec());
}

#[test]
fn pair_without_equals_has_empty_value() {
    let f = parse_entry_form(b"url=u&title=t&notes").expect("must decode");
    assert_eq!(f.notes, b"".to_vec());
}

#[test]
fn escapes_decode_in_both_cases_and_keys() {
    let f = parse_entry_form(b"%75rl=a%2Fb&title=%c3%a9&notes=x%3Dy").expect("must decode");
    assert_eq!(f.url, b"a/b".to_vec());
    assert_eq!(f.title, vec![0xc3, 0xa9]);
    assert_eq!(f.notes, b"x=y".to_vec());
}

#[test]
fn value_may_contain_further_equals() {
    let f = parse_entry_form(b"url=a=b&title=t&notes=n").expect("must decode");
    assert_eq!(f.url, b"a=b".to_vec());
}

#[test]
fn empty_pair_segments_are_skipped() {
    let f = parse_entry_form(b"&url=u&&title=t&notes=n&").expect("must decode");
    assert_eq!(f.title, b"t".to_vec());
}
