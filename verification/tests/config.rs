use blitz_rs::config::{
    format_body, preview_lines, truncate, HttpMethod, RequestConfig, BODY_PREVIEW_LINES,
};

#[test]
fn method_names() {
    assert_eq!(HttpMethod::GET.as_str(), "GET");
    assert_eq!(HttpMethod::POST.as_str(), "POST");
    assert_eq!(HttpMethod::PUT.as_str(), "PUT");
    assert_eq!(HttpMethod::DELETE.as_str(), "DELETE");
    assert_eq!(HttpMethod::PATCH.as_str(), "PATCH");
    assert_eq!(HttpMethod::HEAD.as_str(), "HEAD");
}

#[test]
fn short_texts_are_kept() {
    assert_eq!(truncate("https://api.example.com/users", 60), "https://api.example.com/users");
    let exact = "a".repeat(60);
    assert_eq!(truncate(&exact, 60), exact);
}

#[test]
fn long_texts_are_cut_with_an_ellipsis() {
    let long = "a".repeat(70);
    let t = truncate(&long, 60);
    assert_eq!(t, format!("{}…", "a".repeat(57)));
    assert_eq!(t.len(), 60);
    let t = truncate("abcdefgh", 5);
    assert_eq!(t, "ab…");
}

#[test]
fn cuts_keep_multibyte_characters_whole() {
    // 'é' is two bytes; the cut at byte 3 falls after "aé".
    let t = truncate("aébcdefgh", 6);
    assert_eq!(t, "aé…");
    assert!(t.len() <= 6);
}

#[test]
fn cuts_inside_a_character_move_back_to_its_start() {
    // 'é' occupies bytes 2 and 3; a cut at byte 3 would split it.
    assert_eq!(truncate("aaébcdefgh", 6), "aa…");
    let url = format!("https://example.com/{}é{}", "p".repeat(36), "q".repeat(10));
    assert_eq!(url.len(), 68);
    let t = truncate(&url, 60);
    assert_eq!(t, format!("https://example.com/{}…", "p".repeat(36)));
    assert!(t.len() <= 60);
    let t = truncate(&"日本語".repeat(30), 50);
    assert_eq!(t, format!("{}…", "日本語".repeat(5)));
    assert!(t.len() <= 50);
}

#[test]
fn widths_below_three_keep_only_the_ellipsis() {
    assert_eq!(truncate("abcdef", 2), "…");
    assert_eq!(truncate("ab", 2), "ab");
}

#[test]
fn summary_of_non_ascii_configuration_does_not_panic() {
    let cfg = RequestConfig {
        url: format!("https://example.com/{}", "é".repeat(40)),
        method: HttpMethod::GET,
        headers: vec![("X-Name".to_string(), "ü".repeat(30))],
        body: Some("plain\nbody".to_string()),
    };
    let s = cfg.summary();
    assert!(s.url.len() <= 60);
    assert!(s.url.ends_with('…'));
    assert!(s.headers[0].1.len() <= 50);
    assert_eq!(s.headers[0].1, format!("{}…", "ü".repeat(23)));
    let (lines, more) = s.body_preview.unwrap();
    assert_eq!(lines, vec!["plain".to_string(), "body".to_string()]);
    assert_eq!(more, 0);
}

#[test]
fn lines_follow_std_lines() {
    for text in [
        "",
        "one",
        "one\n",
        "one\ntwo",
        "a\r\nb\n\nc",
        "\n",
        "\n\n",
        "x\r",
        "x\r\n",
        "a\rb\n",
        "trailing\n\n",
    ] {
        let expected: Vec<String> = text.lines().map(|l| l.to_string()).collect();
        let (shown, more) = preview_lines(text, 100);
        assert_eq!(shown, expected, "text {:?}", text);
        assert_eq!(more, 0);
    }
}

#[test]
fn preview_shows_at_most_max_lines() {
    let text: String = (0..12).map(|i| format!("line {}\n", i)).collect();
    let (shown, more) = preview_lines(&text, BODY_PREVIEW_LINES);
    assert_eq!(shown.len(), 10);
    assert_eq!(shown[0], "line 0");
    assert_eq!(shown[9], "line 9");
    assert_eq!(more, 2);
    let (shown, more) = preview_lines("a\nb", 10);
    assert_eq!(shown, vec!["a".to_string(), "b".to_string()]);
    assert_eq!(more, 0);
}

#[test]
fn json_bodies_are_pretty_printed() {
    let body = r#"{"name": "John", "email": "john@example.com"}"#;
    let expected =
        serde_json::to_string_pretty(&serde_json::from_str::<serde_json::Value>(body).unwrap())
            .unwrap();
    assert_eq!(format_body(body), expected);
    assert_eq!(format_body("[1,2]"), "[\n  1,\n  2\n]");
}

#[test]
fn other_bodies_are_kept() {
    assert_eq!(format_body("plain text body"), "plain text body");
    assert_eq!(format_body("{not json"), "{not json");
}

fn config(body: Option<&str>) -> RequestConfig {
    RequestConfig {
        url: format!("https://api.example.com/{}", "x".repeat(60)),
        method: HttpMethod::POST,
        headers: vec![
            ("Content-Type".to_string(), "application/json".to_string()),
            ("Authorization".to_string(), format!("Bearer {}", "t".repeat(60))),
        ],
        body: body.map(|b| b.to_string()),
    }
}

#[test]
fn summary_shortens_url_and_header_values() {
    let cfg = config(None);
    let s = cfg.summary();
    assert_eq!(s.url.len(), 60);
    assert!(s.url.ends_with('…'));
    assert_eq!(s.method, "POST");
    assert_eq!(s.headers[0], ("Content-Type".to_string(), "application/json".to_string()));
    assert_eq!(s.headers[1].0, "Authorization");
    assert_eq!(s.headers[1].1, format!("Bearer {}…", "t".repeat(40)));
    assert!(s.body_preview.is_none());
}

#[test]
fn summary_previews_the_body() {
    let cfg = config(Some(r#"{"a": 1, "b": [1, 2, 3, 4, 5, 6, 7, 8, 9]}"#));
    let s = cfg.summary();
    let (lines, more) = s.body_preview.unwrap();
    assert_eq!(lines.len(), 10);
    assert_eq!(lines[0], "{");
    assert_eq!(lines[1], "  \"a\": 1,");
    assert_eq!(more, 4);
}
