use cozydot::domain::HttpsUrl;

#[test]
fn parses_and_canonicalizes_literal_https_urls() {
    let url = HttpsUrl::parse("https://münchen.example/path?q=1").unwrap();
    assert_eq!(url.as_str(), "https://xn--mnchen-3ya.example/path?q=1");
}

#[test]
fn rejects_non_https_and_non_literal_urls() {
    for invalid in [
        "http://example.com",
        "https://user@example.com",
        "https://example.com/path#fragment",
        "https://example.com/${ARCH}",
    ] {
        let error = HttpsUrl::parse(invalid).unwrap_err();
        assert!(error.contains(invalid), "missing {invalid:?} in {error:?}");
    }
}

#[test]
fn https_url_errors_name_the_rule() {
    assert_eq!(
        HttpsUrl::parse("  ").unwrap_err(),
        "invalid HTTPS URL \"  \"; must be a non-empty string"
    );
    assert_eq!(
        HttpsUrl::parse("https://example.com/a b").unwrap_err(),
        "invalid HTTPS URL \"https://example.com/a b\"; must be literal and contain no whitespace or substitutions"
    );
    assert_eq!(
        HttpsUrl::parse("not a url").unwrap_err(),
        "invalid HTTPS URL \"not a url\"; must be literal and contain no whitespace or substitutions"
    );
    assert_eq!(
        HttpsUrl::parse("example.com").unwrap_err(),
        "invalid HTTPS URL \"example.com\"; must be a valid absolute URL"
    );
    assert!(HttpsUrl::parse("https://example.com:/").is_err());
    assert!(HttpsUrl::parse("https://1.2.3.4/file").is_ok());
    assert_eq!(HttpsUrl::parse("https://example.com").unwrap().as_str(), "https://example.com/");
}
