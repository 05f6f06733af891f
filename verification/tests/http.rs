use blitz_rs::config::{HttpMethod, RequestConfig};
use blitz_rs::http::request_headers;
use reqwest::header::{HeaderName, HeaderValue};
use std::str::FromStr;

fn cfg(headers: Vec<(&str, &str)>) -> RequestConfig {
    RequestConfig {
        url: "http://localhost/".to_string(),
        method: HttpMethod::GET,
        headers: headers
            .into_iter()
            .map(|(k, v)| (k.to_string(), v.to_string()))
            .collect(),
        body: None,
    }
}

#[test]
fn valid_headers_are_kept_in_order() {
    let c = cfg(vec![("User-Agent", "blitz/0.1.0"), ("Accept", "application/json")]);
    let h = request_headers(&c);
    assert_eq!(
        h,
        vec![
            ("User-Agent".to_string(), "blitz/0.1.0".to_string()),
            ("Accept".to_string(), "application/json".to_string()),
        ]
    );
}

#[test]
fn invalid_names_and_values_are_skipped() {
    let c = cfg(vec![
        ("Bad Name", "x"),
        ("", "x"),
        ("X-Ok", "line\nbreak"),
        ("X-Tab", "a\tb"),
        ("X-Del", "a\u{7f}b"),
        ("X-Utf8", "café"),
        ("Naïve", "x"),
    ]);
    let h = request_headers(&c);
    assert_eq!(
        h,
        vec![
            ("X-Tab".to_string(), "a\tb".to_string()),
            ("X-Utf8".to_string(), "café".to_string()),
        ]
    );
}

#[test]
fn kept_headers_agree_with_the_http_crate() {
    let mut pairs: Vec<(String, String)> = Vec::new();
    for b in 0u8..128 {
        let ch = b as char;
        pairs.push((format!("x{}y", ch), "v".to_string()));
        pairs.push(("x".to_string(), format!("v{}w", ch)));
    }
    let c = RequestConfig {
        url: String::new(),
        method: HttpMethod::GET,
        headers: pairs.clone(),
        body: None,
    };
    let expected: Vec<(String, String)> = pairs
        .into_iter()
        .filter(|(k, v)| HeaderName::from_str(k).is_ok() && HeaderValue::from_str(v).is_ok())
        .collect();
    assert_eq!(request_headers(&c), expected);
}
