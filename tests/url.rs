use metabrowser::url::{escape_url_pattern, url_patterns_to_regex};

#[test]
fn test_escape_url_pattern() {
    const TEST_CASES: &[(&str, &str)] = &[
        ("example.com", r"example\.com(?:/|$)"),
        ("*.example.com", r"(?:.+\.)?example\.com(?:/|$)"),
    ];

    for (url_pattern, expected) in TEST_CASES {
        let result = escape_url_pattern(url_pattern);
        assert_eq!(result, *expected);
    }
}

#[test]
fn test_url_pattern_to_regex() {
    let test_cases: &[(&[_], &[_], &[_])] = &[
        (
            &["example.com".to_owned()],
            &[
                "example.com/",
                "example.com/path",
                "http://example.com",
                "http://example.com/",
                "https://example.com",
                "https://example.com/",
                "EXAMPLE.COM",
                "HTTP://EXAMPLE.COM",
                "HTTP://EXAMPLE.COM/",
                "HTTPS://EXAMPLE.COM",
                "HTTPS://EXAMPLE.COM/",
            ],
            &[
                "www.example.com",
                "example.com.evil.net",
                "example.net",
                "ftp://example.com",
                "badexample.com",
            ],
        ),
        (
            &["*.example.com".to_owned()],
            &[
                "example.com",
                "example.com/path",
                "www.example.com",
                "www2.example.com/path",
                "http://example.com",
                "http://example.com/",
                "https://example.com",
                "https://example.com/",
            ],
            &["example.com.evil.net", "example.net", "badexample.com"],
        ),
        (
            &["example.com/path".to_owned()],
            &["example.com/path", "example.com/path/subpath"],
            &["example.com/path-to-evil-subdir"],
        ),
        (
            &["example.com".to_owned(), "example2.com".to_owned()],
            &["example.com", "example2.com"],
            &["example.com.example2.com", "example2.com.example.com"],
        ),
    ];

    for (url_patterns, expected_matches, expected_mismatches) in test_cases {
        let re = url_patterns_to_regex(*url_patterns).unwrap();

        for url in *expected_matches {
            assert!(re.is_match(url), "{url_patterns:?} matches {url}");
        }

        for url in *expected_mismatches {
            assert!(!re.is_match(url), "{url_patterns:?} does not match {url}");
        }
    }
}

#[test]
fn empty_pattern_list_has_no_matcher() {
    let none: Vec<String> = Vec::new();
    assert!(url_patterns_to_regex(&none).is_none());
    assert!(url_patterns_to_regex(&["".to_owned()]).is_some());
    assert!(url_patterns_to_regex(&["a(b".to_owned(), "[x".to_owned()]).is_some());
}

#[test]
fn combined_expression_text() {
    let re = url_patterns_to_regex(&["a.b".to_owned(), "*.c/d".to_owned()]).unwrap();
    assert_eq!(
        re.as_str(),
        r"^(?:https?://)?(?:a\.b(?:/|$)|(?:.+\.)?c/d(?:/|$))"
    );
}

#[test]
fn escape_all_meta_characters() {
    assert_eq!(
        escape_url_pattern(r"\.+*?()|[]{}^$#&-~/!é"),
        r"\\\.\+\*\?\(\)\|\[\]\{\}\^\$\#\&\-\~/!é(?:/|$)"
    );
    assert_eq!(escape_url_pattern(""), "(?:/|$)");
    assert_eq!(escape_url_pattern("*."), "(?:.+\\.)?(?:/|$)");
    assert_eq!(escape_url_pattern("*"), "\\*(?:/|$)");
}

#[test]
fn metacharacters_match_literally() {
    let re = url_patterns_to_regex(&["a+b.com".to_owned()]).unwrap();
    assert!(re.is_match("a+b.com"));
    assert!(!re.is_match("aab.com"));
    assert!(!re.is_match("a+bxcom"));
}

#[test]
fn non_ascii_pattern_and_url() {
    let re = url_patterns_to_regex(&["bücher.de".to_owned()]).unwrap();
    assert!(re.is_match("https://BÜCHER.DE/x"));
    assert!(!re.is_match("bücher.dex"));
}
