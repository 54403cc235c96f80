use dlsite_renamer::config::parse_directories;

#[test]
fn parse_directories_reads_an_array_of_strings() {
    assert_eq!(
        parse_directories("[\"/data/a\", \"D:\\\\works\", \"rel/dir\"]").unwrap(),
        vec!["/data/a".to_string(), "D:\\works".to_string(), "rel/dir".to_string()]
    );
}

#[test]
fn parse_directories_keeps_order_and_duplicates() {
    assert_eq!(
        parse_directories("[\"b\",\"a\",\"b\"]").unwrap(),
        vec!["b".to_string(), "a".to_string(), "b".to_string()]
    );
}

#[test]
fn parse_directories_reads_an_empty_array() {
    assert_eq!(parse_directories(" [ ] ").unwrap(), Vec::<String>::new());
}

#[test]
fn parse_directories_decodes_escapes() {
    assert_eq!(
        parse_directories("[\"\\u4f5c\\u54c1\", \"a\\/b\"]").unwrap(),
        vec!["作品".to_string(), "a/b".to_string()]
    );
}

#[test]
fn parse_directories_rejects_other_texts() {
    for text in ["", "{}", "[1, 2]", "[\"a\",]", "\"a\"", "[\"a\"] x", "[null]", "[[\"a\"]]", "not json"] {
        let r = parse_directories(text);
        assert!(r.is_err(), "{text}");
        assert!(!r.unwrap_err().message.is_empty());
    }
}
