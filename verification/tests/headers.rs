use cr8s::bearer::{parse_bearer, whitespace_tokens};

#[test]
fn test_parse_bearer_well_formed() {
    assert_eq!(parse_bearer(Some("Bearer abc123")), Some(String::from("abc123")));
    assert_eq!(parse_bearer(Some("  Bearer   tok  ")), Some(String::from("tok")));
    assert_eq!(parse_bearer(Some("Bearer\ttok")), Some(String::from("tok")));
}

#[test]
fn test_parse_bearer_rejects_other_shapes() {
    assert_eq!(parse_bearer(None), None);
    assert_eq!(parse_bearer(Some("")), None);
    assert_eq!(parse_bearer(Some("Bearer")), None);
    assert_eq!(parse_bearer(Some("Bearertok")), None);
    assert_eq!(parse_bearer(Some("bearer tok")), None);
    assert_eq!(parse_bearer(Some("Token tok")), None);
    assert_eq!(parse_bearer(Some("Bearer one two")), None);
    assert_eq!(parse_bearer(Some("x Bearer tok")), None);
}

#[test]
fn test_whitespace_tokens() {
    assert_eq!(
        whitespace_tokens("a  b\tc\r\nd"),
        vec![
            String::from("a"),
            String::from("b"),
            String::from("c"),
            String::from("d")
        ]
    );
    assert_eq!(whitespace_tokens(""), Vec::<String>::new());
    assert_eq!(whitespace_tokens("   "), Vec::<String>::new());
    assert_eq!(whitespace_tokens(" one "), vec![String::from("one")]);
}
