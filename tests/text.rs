use alepc::errors::ApcError;
use alepc::text::{
    get_str_length, parse_bool, parse_str_vec, parse_string, slug_updater, tags_updater,
};

#[test]
fn slug_is_trimmed_lowered_and_hyphenated() {
    assert_eq!(slug_updater("  Hello_World Post "), "hello-world-post");
    assert_eq!(slug_updater("Hello_World"), "hello-world");
    assert_eq!(slug_updater(""), "");
    assert_eq!(slug_updater("\u{c9}mile Zola"), "\u{e9}mile-zola");
}

#[test]
fn slug_normalisation_is_idempotent() {
    for s in ["  A_b C ", "x", "\tTab_Stop\n", "Émile Zola", "--a__b--"] {
        let once = slug_updater(s);
        let twice = slug_updater(&once);
        assert_eq!(once, twice);
        assert!(!once.contains(' ') && !once.contains('_'));
        assert!(!once.chars().any(|c| c.is_uppercase()));
    }
}

#[test]
fn normalize_tags_drops_empty_pieces() {
    assert_eq!(tags_updater("a, ,B ,c", ','), vec!["a", "b", "c"]);
    assert_eq!(tags_updater("", ','), Vec::<String>::new());
    assert_eq!(tags_updater("Rust;  Verus ;", ';'), vec!["rust", "verus"]);
    assert_eq!(tags_updater("\u{c9}T\u{c9}", ','), vec!["\u{e9}t\u{e9}"]);
}

#[test]
fn parse_string_list_accepts_brackets_only() {
    assert_eq!(
        parse_str_vec("[\"a\", \"b\"]").unwrap(),
        vec!["a".to_owned(), "b".to_owned()]
    );
    assert!(matches!(
        parse_str_vec("a, b"),
        Err(ApcError::PostProperties(_))
    ));
    assert!(matches!(
        parse_str_vec("[\"a\", b]"),
        Err(ApcError::PostProperties(_))
    ));
    assert!(matches!(parse_str_vec("[]"), Err(ApcError::PostProperties(_))));
    match parse_str_vec("[\"a\", b ]") {
        Err(ApcError::PostProperties(m)) => {
            assert_eq!(m, "`b` invalid string property, should start and end with '\"'")
        }
        _ => panic!("an unquoted piece must be refused"),
    }
}

#[test]
fn parse_quoted_string() {
    assert_eq!(parse_string("\"hi there\"").unwrap(), "hi there");
    assert_eq!(parse_string("\"\"").unwrap(), "");
    assert_eq!(parse_string("\"\"a\"\"").unwrap(), "\"a\"");
    assert!(matches!(parse_string(" \"a\""), Err(ApcError::PostProperties(_))));
    assert_eq!(parse_string("\"").unwrap(), "");
    match parse_string("x") {
        Err(ApcError::PostProperties(m)) => {
            assert_eq!(m, "`x` invalid string property, should start and end with '\"'")
        }
        _ => panic!("an unquoted text must be refused"),
    }
    assert!(matches!(parse_string("hi\""), Err(ApcError::PostProperties(_))));
    assert!(matches!(parse_string("\"hi"), Err(ApcError::PostProperties(_))));
}

#[test]
fn parse_boolean_literals() {
    assert_eq!(parse_bool("true").unwrap(), true);
    assert_eq!(parse_bool("false").unwrap(), false);
    assert!(matches!(parse_bool("True"), Err(ApcError::PostProperties(_))));
    assert!(matches!(parse_bool(" true"), Err(ApcError::PostProperties(_))));
}

#[test]
fn trimmed_length_counts_characters() {
    assert_eq!(get_str_length("  héllo \t"), 5);
    assert_eq!(get_str_length("   "), 0);
}
