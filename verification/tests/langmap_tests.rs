use sitegen::langmap::{build_language_map, lookup_language};

#[test]
fn table_holds_the_nine_tags() {
    let map = build_language_map();
    assert_eq!(map.len(), 9);
    let expected = vec![
        ("", "Plain Text"),
        ("bash", "Shell-Unix-Generic"),
        ("javascript", "JavaScript"),
        ("html", "HTML"),
        ("json", "JSON"),
        ("toml", "Plain Text"),
        ("rust", "Rust"),
        ("css", "CSS"),
        ("python", "Python"),
    ];
    for (entry, want) in map.iter().zip(expected.iter()) {
        assert_eq!(entry.0, want.0);
        assert_eq!(entry.1, want.1);
    }
}

#[test]
fn known_tags_resolve() {
    assert_eq!(lookup_language("bash").as_deref(), Some("Shell-Unix-Generic"));
    assert_eq!(lookup_language("").as_deref(), Some("Plain Text"));
    assert_eq!(lookup_language("toml").as_deref(), Some("Plain Text"));
    assert_eq!(lookup_language("rust").as_deref(), Some("Rust"));
}

#[test]
fn unknown_tag_is_an_error_not_a_fallback() {
    assert!(lookup_language("zzz").is_none());
    assert!(lookup_language("Bash").is_none());
    assert!(lookup_language("plaintext").is_none());
}
