use ai_bridge::error::Error;
use ai_bridge::forward::UpstreamType;
use ai_bridge::headers::{authenticate, header_overrides_from_pairs, upstream_headers};
use http::{HeaderMap, HeaderValue};

fn overrides(entries: &[(&str, &str)]) -> HeaderMap {
    header_overrides_from_pairs(entries.iter().map(|(n, v)| (n.to_string(), v.to_string())).collect())
}

#[test]
fn anthropic_upstreams_get_the_key_and_the_version() {
    let h = upstream_headers(UpstreamType::AnthropicMessages, "k", &HeaderMap::new()).unwrap();
    assert_eq!(h.len(), 3);
    assert_eq!(h["x-api-key"], "k");
    assert_eq!(h["anthropic-version"], "2023-06-01");
    assert_eq!(h["content-type"], "application/json");
}

#[test]
fn openai_upstreams_get_a_bearer_token() {
    for t in [UpstreamType::OaiChat, UpstreamType::OaiResponses] {
        let h = upstream_headers(t, "k", &HeaderMap::new()).unwrap();
        assert_eq!(h.len(), 2);
        assert_eq!(h["authorization"], "Bearer k");
        assert_eq!(h["content-type"], "application/json");
    }
}

#[test]
fn overrides_replace_the_defaults() {
    let o = overrides(&[("Content-Type", "text/plain"), ("AUTHORIZATION", "Basic x"), ("X-Tenant", "t")]);
    let h = upstream_headers(UpstreamType::OaiChat, "k", &o).unwrap();
    assert_eq!(h.len(), 3);
    assert_eq!(h.get_all("content-type").iter().count(), 1);
    assert_eq!(h["content-type"], "text/plain");
    assert_eq!(h["authorization"], "Basic x");
    assert_eq!(h["x-tenant"], "t");
}

#[test]
fn of_several_values_of_an_override_the_last_counts() {
    let mut o = HeaderMap::new();
    o.append("x-tenant", HeaderValue::from_static("a"));
    o.append("x-tenant", HeaderValue::from_static("b"));
    let h = upstream_headers(UpstreamType::OaiChat, "k", &o).unwrap();
    assert_eq!(h.get_all("x-tenant").iter().collect::<Vec<_>>(), ["b"]);
}

#[test]
fn a_key_that_is_no_header_value_is_refused() {
    for t in [UpstreamType::AnthropicMessages, UpstreamType::OaiChat] {
        match upstream_headers(t, "a\nb", &HeaderMap::new()) {
            Err(Error::Config(m)) => assert_eq!(m, "Invalid API key header: failed to parse header value"),
            _ => panic!("a line break is no part of a header"),
        }
    }
}

#[test]
fn thousands_of_headers_are_taken() {
    let entries: Vec<(String, String)> = (0..6_000).map(|i| (format!("x-{i}"), i.to_string())).collect();
    let o = header_overrides_from_pairs(entries);
    let h = upstream_headers(UpstreamType::OaiChat, "k", &o).unwrap();
    assert_eq!(h.len(), 6_002);
    assert_eq!(h["x-5999"], "5999");
}

#[test]
fn values_that_are_no_visible_text_count_as_absent() {
    let mut h = HeaderMap::new();
    h.insert("x-api-key", HeaderValue::from_bytes(b"\xfa").unwrap());
    h.insert("authorization", HeaderValue::from_static("Bearer secret"));
    assert!(authenticate(&h, Some("secret")).is_ok());
}

#[test]
fn another_scheme_is_no_bearer_token() {
    let mut h = HeaderMap::new();
    h.insert("authorization", HeaderValue::from_static("bearer secret"));
    assert!(matches!(authenticate(&h, Some("secret")), Err(Error::Unauthorized(_))));
    assert!(authenticate(&h, Some("")).is_ok());
}

#[test]
fn values_may_hold_any_text_but_control_characters() {
    let o = overrides(&[("x-a", "é"), ("x-b", "a\tb"), ("x-c", "a\u{7f}"), ("x-d", "a\u{1}b"), ("x-e", " ~ ")]);
    assert_eq!(o.len(), 3);
    assert_eq!(o["x-a"].as_bytes(), "é".as_bytes());
    assert_eq!(o["x-b"], "a\tb");
    assert_eq!(o["x-e"], "~");
    let h = upstream_headers(UpstreamType::OaiChat, "clé", &o).unwrap();
    assert_eq!(h["authorization"].as_bytes(), "Bearer clé".as_bytes());
}

#[test]
fn names_are_tokens_in_any_case() {
    let long = "x".repeat(65_535);
    let too_long = "x".repeat(65_536);
    let o = overrides(&[("X-A!#$%&'*+-.^_`|~0", "v"), ("a b", "v"), ("é", "v"), ("a\"b", "v"), (&long, "v"), (&too_long, "v")]);
    assert_eq!(o.len(), 2);
    assert_eq!(o["x-a!#$%&'*+-.^_`|~0"], "v");
}

#[test]
fn repeated_names_are_taken_however_many_there_are() {
    let entries: Vec<(String, String)> = (0..20_000).map(|i| (format!("X-{}", i % 5), i.to_string())).collect();
    let o = header_overrides_from_pairs(entries);
    assert_eq!(o.len(), 5);
    assert_eq!(o["x-4"], "19999");
}
