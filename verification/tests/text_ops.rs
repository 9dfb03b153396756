use infra_graph::text::{
    contains_str, find_char, first_token, split_str, split_str2, starts_with_str, str_eq,
    str_lines, strip_trail_str, trim_str,
};

#[test]
fn lines_split_at_newlines_and_swallow_carriage_returns() {
    assert_eq!(str_lines("a\nb"), vec!["a".to_string(), "b".to_string()]);
    assert_eq!(str_lines("a\r\nb\r\n"), vec!["a".to_string(), "b".to_string()]);
    assert_eq!(str_lines("a\n\nb"), vec!["a".to_string(), String::new(), "b".to_string()]);
    assert!(str_lines("").is_empty());
    assert_eq!(str_lines("\n"), vec![String::new()]);
}

#[test]
fn trimming_removes_surrounding_whitespace_only() {
    assert_eq!(trim_str("  proxy_pass x;  \t"), "proxy_pass x;");
    assert_eq!(trim_str("\t\n "), "");
    assert_eq!(trim_str("inner  space"), "inner  space");
}

#[test]
fn trimming_matches_unicode_whitespace() {
    // The whitespace set is the one `char::is_whitespace` accepts: form
    // feed, vertical tab, no-break space, ideographic space.
    assert_eq!(trim_str("\u{0c}listen 8080;\u{0b}"), "listen 8080;");
    assert_eq!(trim_str("\u{a0}x\u{3000}"), "x");
    assert_eq!(
        infra_graph::extract::extract_listen_port("\u{0c}listen 8080;"),
        Some("8080".to_string())
    );
}

#[test]
fn trailing_terminators_are_stripped() {
    assert_eq!(strip_trail_str("example.com;;", ';'), "example.com");
    assert_eq!(strip_trail_str("web,db,,", ','), "web,db");
    assert_eq!(strip_trail_str("plain", ';'), "plain");
}

#[test]
fn first_token_skips_leading_whitespace() {
    assert_eq!(first_token("  8080 ssl"), Some("8080".to_string()));
    assert_eq!(first_token("   "), None);
    assert_eq!(first_token("one"), Some("one".to_string()));
}

#[test]
fn split_handles_empty_pieces() {
    assert_eq!(split_str("a||b", '|'), vec!["a".to_string(), String::new(), "b".to_string()]);
    assert_eq!(split_str("", '|'), vec![String::new()]);
    assert_eq!(
        split_str2("80/tcp -> 0.0.0.0:8080", '-', '>'),
        vec!["80/tcp ".to_string(), " 0.0.0.0:8080".to_string()]
    );
    assert_eq!(split_str2("a->b->c", '-', '>'), vec![
        "a".to_string(),
        "b".to_string(),
        "c".to_string(),
    ]);
}

#[test]
fn scanning_primitives_behave_like_std() {
    assert!(starts_with_str("proxy_pass http://x", "proxy_pass"));
    assert!(!starts_with_str("pro", "proxy_pass"));
    assert!(contains_str("listen 443 ssl_certificate;", "ssl_certificate"));
    assert!(!contains_str("listen 443;", "ssl_certificate"));
    assert_eq!(find_char("a b", ' '), Some(1));
    assert_eq!(find_char("ab", ' '), None);
    assert!(str_eq("web", "web"));
    assert!(!str_eq("web", "web2"));
}
