use pricetracker::http_clients::{Curl, Mock};
use pricetracker::pricetracker::Error;

#[test]
fn mock_serves_its_pages() {
    let m = Mock::new(vec![
        ("https://8a.pl/a".to_string(), "<html>a</html>".to_string()),
        ("https://skalnik.pl/b".to_string(), "<html>b</html>".to_string()),
    ]);
    assert_eq!(m.get("https://8a.pl/a").unwrap(), "<html>a</html>");
    assert_eq!(m.get("https://skalnik.pl/b").unwrap(), "<html>b</html>");
}

#[test]
fn mock_last_pair_wins() {
    let m = Mock::new(vec![
        ("u".to_string(), "first".to_string()),
        ("u".to_string(), "second".to_string()),
    ]);
    assert_eq!(m.get("u").unwrap(), "second");
}

#[test]
fn mock_missing_page_is_http_get_error() {
    let m = Mock::new(vec![]);
    match m.get("https://example.com/x") {
        Err(Error::HttpGetError(msg)) => assert_eq!(msg, "mock: no entry for https://example.com/x"),
        other => panic!("unexpected {:?}", other),
    }
}

#[test]
fn curl_arguments() {
    let a = Curl::new().args("https://8a.pl/x");
    assert_eq!(
        a,
        vec![
            "https://8a.pl/x".to_string(),
            "--compressed".to_string(),
            "-H".to_string(),
            "User-Agent: Mozilla/5.0 (X11; Linux x86_64; rv:109.0) Gecko/20100101 Firefox/116.0"
                .to_string(),
        ]
    );
}

#[test]
fn curl_success_returns_stdout() {
    let r = Curl::new().response("u", true, "<html/>".to_string(), "ignored");
    assert_eq!(r.unwrap(), "<html/>");
}

#[test]
fn curl_failure_quotes_stderr() {
    match Curl::new().response("https://x", false, "out".to_string(), "could not resolve") {
        Err(Error::HttpGetError(msg)) => {
            assert_eq!(msg, "curl: error getting https://x: could not resolve")
        }
        other => panic!("unexpected {:?}", other),
    }
}

#[test]
fn curl_spawn_error_message() {
    match Curl::new().spawn_error("https://x", "No such file or directory") {
        Error::HttpGetError(msg) => {
            assert_eq!(msg, "curl: error executing curl https://x: No such file or directory")
        }
        other => panic!("unexpected {:?}", other),
    }
}

#[test]
fn curl_program_name() {
    assert_eq!(Curl::new().program(), "curl");
}

#[test]
fn curl_bytes_are_read_as_utf8() {
    let r = Curl::new().response_bytes("u", true, "cena: 12,50 zł".as_bytes(), b"");
    assert_eq!(r.unwrap(), "cena: 12,50 zł");
    let r = Curl::new().response_bytes("u", true, b"a\xffb", b"");
    assert_eq!(r.unwrap(), "a\u{FFFD}b");
    match Curl::new().response_bytes("https://x", false, b"page", b"curl: (6) bad\xff") {
        Err(Error::HttpGetError(msg)) => {
            assert_eq!(msg, "curl: error getting https://x: curl: (6) bad\u{FFFD}")
        }
        other => panic!("unexpected {:?}", other),
    }
}

#[test]
fn error_descriptions() {
    assert_eq!(
        Error::ExtractPageInfoError("bad".to_string()).describe(),
        "Error extracting page info: bad"
    );
    assert_eq!(Error::HttpGetError("down".to_string()).describe(), "Error getting page: down");
}
