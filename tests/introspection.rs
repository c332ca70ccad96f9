use ip_echo::address::{client_address, resolve_address};
use ip_echo::classify::is_tool_like;
use ip_echo::decode::{decode_headers, value_text, RawHeader};
use ip_echo::headers::{name_matches, Header, HeaderSet};
use ip_echo::json::{json_address, json_combined, json_headers, json_user_agent};
use ip_echo::plain::{combined_dump, header_dump, landing, as_line};
use ip_echo::routes::{handle, render, route_for, ContentType, Route};
use std::collections::BTreeMap;

fn headers(pairs: &[(&str, &str)]) -> HeaderSet {
    HeaderSet {
        entries: pairs
            .iter()
            .map(|(n, v)| Header { name: n.to_string(), value: v.to_string() })
            .collect(),
    }
}

fn raw(pairs: &[(&str, &[u8])]) -> Vec<RawHeader> {
    pairs
        .iter()
        .map(|(n, v)| RawHeader { name: n.to_string(), value: v.to_vec() })
        .collect()
}

fn decode_object(body: &str) -> BTreeMap<String, String> {
    serde_json::from_str(body).unwrap()
}

#[test]
fn address_drops_port() {
    assert_eq!(resolve_address("203.0.113.5:51342"), "203.0.113.5");
    assert_eq!(resolve_address("10.0.0.1"), "10.0.0.1");
    assert_eq!(resolve_address(""), "");
    assert_eq!(resolve_address(":80"), "");
}

#[test]
fn address_truncates_ipv6_at_first_colon() {
    assert_eq!(resolve_address("[::1]:8080"), "[");
    assert_eq!(resolve_address("2001:db8::1"), "2001");
}

#[test]
fn missing_connection_info_gives_empty_address() {
    assert_eq!(client_address(None), "");
    assert_eq!(client_address(Some("1.2.3.4:5")), "1.2.3.4");
}

#[test]
fn classifier_examples() {
    assert!(is_tool_like("curl/7.79.1"));
    assert!(!is_tool_like("Mozilla/5.0 (X11; Linux x86_64)"));
    assert!(!is_tool_like(""));
    assert!(!is_tool_like("Curl/7.0"));
    assert!(!is_tool_like("cur"));
}

#[test]
fn header_lookup_ignores_case() {
    let hs = headers(&[("user-agent", "curl/8.0.1"), ("Accept", "*/*")]);
    assert_eq!(hs.user_agent(), "curl/8.0.1");
    assert_eq!(hs.get("ACCEPT", "none"), "*/*");
    assert_eq!(hs.get("Host", "none"), "none");
    assert!(name_matches("User-Agent", "uSER-aGENT"));
    assert!(!name_matches("User-Agent", "User_Agent"));
}

#[test]
fn header_lookup_takes_first_of_duplicates() {
    let hs = headers(&[("X-A", "1"), ("x-a", "2")]);
    assert_eq!(hs.get("x-A", ""), "1");
}

#[test]
fn missing_user_agent_is_unknown() {
    let hs = headers(&[("Host", "example.com")]);
    assert_eq!(hs.user_agent(), "Unknown");
    let r = render(Route::PlainUserAgent, "1.2.3.4", &hs);
    assert_eq!(r.body, "Unknown\n");
    let empty = headers(&[]);
    assert_eq!(render(Route::PlainUserAgent, "", &empty).body, "Unknown\n");
}

#[test]
fn plain_renderers() {
    assert_eq!(as_line("10.0.0.1"), "10.0.0.1\n");
    let hs = headers(&[("Host", "example.com"), ("Accept", "*/*")]);
    assert_eq!(header_dump(&hs), "Host: example.com\nAccept: */*\n");
    assert_eq!(combined_dump("10.0.0.1", &hs), "ip: 10.0.0.1\nHost: example.com\nAccept: */*\n");
    assert_eq!(header_dump(&headers(&[])), "");
    assert!(landing("1.2.3.4").starts_with("your ip is: 1.2.3.4\nother routes:\n/ip\n"));
    assert!(landing("1.2.3.4").ends_with("/json/all"));
}

#[test]
fn json_renderers() {
    assert_eq!(json_address("10.0.0.1"), "{\"ip\":\"10.0.0.1\"}");
    assert_eq!(json_user_agent("curl/8.0.1"), "{\"user-agent\":\"curl/8.0.1\"}");
    assert_eq!(json_headers(&headers(&[])), "{}");
    assert_eq!(json_address("a\"b"), "{\"ip\":\"a\\\"b\"}");
}

#[test]
fn json_header_dump_round_trips() {
    let hs = headers(&[("Host", "example.com"), ("Accept", "*/*"), ("X-Trace", "a b")]);
    let decoded = decode_object(&json_headers(&hs));
    assert_eq!(decoded.len(), 3);
    assert_eq!(decoded["Host"], "example.com");
    assert_eq!(decoded["Accept"], "*/*");
    assert_eq!(decoded["X-Trace"], "a b");
}

#[test]
fn json_header_dump_last_write_wins() {
    let hs = headers(&[("X-A", "1"), ("X-B", "2"), ("X-A", "3")]);
    let decoded = decode_object(&json_headers(&hs));
    assert_eq!(decoded.len(), 2);
    assert_eq!(decoded["X-A"], "3");
    assert_eq!(decoded["X-B"], "2");
}

#[test]
fn json_combined_header_named_ip_overwrites_address() {
    let hs = headers(&[("Host", "h")]);
    let d = decode_object(&json_combined("10.0.0.1", &hs));
    assert_eq!(d.len(), 2);
    assert_eq!(d["ip"], "10.0.0.1");
    assert_eq!(d["Host"], "h");
    let hs = headers(&[("ip", "spoofed")]);
    let d = decode_object(&json_combined("10.0.0.1", &hs));
    assert_eq!(d.len(), 1);
    assert_eq!(d["ip"], "spoofed");
}

#[test]
fn rendering_twice_is_identical() {
    let hs = headers(&[("User-Agent", "Mozilla/5.0"), ("Host", "x")]);
    let routes = [
        Route::Landing,
        Route::PlainAddress,
        Route::PlainUserAgent,
        Route::PlainHeaders,
        Route::PlainCombined,
        Route::JsonAddress,
        Route::JsonUserAgent,
        Route::JsonHeaders,
        Route::JsonCombined,
    ];
    for route in routes {
        let a = render(route, "1.2.3.4", &hs);
        let b = render(route, "1.2.3.4", &hs);
        assert_eq!(a.body, b.body);
        assert_eq!(a.status, b.status);
        assert_eq!(a.content_type, b.content_type);
    }
}

#[test]
fn landing_for_curl_is_bare_address() {
    let r = handle(
        "/",
        Some("203.0.113.5:51342"),
        &raw(&[("User-Agent", b"curl/8.0.1")]),
    )
    .unwrap();
    assert_eq!(r.body, "203.0.113.5\n");
    assert_eq!(r.status, 200);
    assert_eq!(r.content_type, ContentType::PlainText);
    assert_eq!(r.content_type.as_str(), "text/plain; charset=utf-8");
}

#[test]
fn landing_for_browser_lists_routes() {
    let r = handle(
        "/",
        Some("203.0.113.5:51342"),
        &raw(&[("User-Agent", b"Mozilla/5.0")]),
    )
    .unwrap();
    assert!(r.body.starts_with("your ip is: 203.0.113.5\n"));
    for path in [
        "/ip", "/ua", "/all", "/raw/ip", "/raw/headers", "/raw/useragent", "/raw/all",
        "/json/ip", "/json/headers", "/json/useragent", "/json/all",
    ] {
        assert!(r.body.lines().any(|l| l == path), "missing {}", path);
    }
    assert_eq!(r.status, 200);
}

#[test]
fn json_ip_route() {
    let r = handle("/json/ip", Some("10.0.0.1:443"), &raw(&[])).unwrap();
    assert_eq!(r.body, "{\"ip\":\"10.0.0.1\"}");
    assert_eq!(r.content_type.as_str(), "application/json; charset=utf-8");
    assert_eq!(r.status, 200);
}

#[test]
fn raw_headers_route_keeps_order() {
    let r = handle(
        "/raw/headers",
        Some("10.0.0.1:443"),
        &raw(&[("Host", b"example.com"), ("Accept", b"*/*")]),
    )
    .unwrap();
    assert_eq!(r.body, "Host: example.com\nAccept: */*\n");
    assert_eq!(r.content_type, ContentType::PlainText);
}

#[test]
fn route_table() {
    assert_eq!(route_for("/"), Some(Route::Landing));
    assert_eq!(route_for("/ip"), Some(Route::PlainAddress));
    assert_eq!(route_for("/raw/ip"), Some(Route::PlainAddress));
    assert_eq!(route_for("/ua"), Some(Route::PlainUserAgent));
    assert_eq!(route_for("/raw/useragent"), Some(Route::PlainUserAgent));
    assert_eq!(route_for("/all"), Some(Route::PlainCombined));
    assert_eq!(route_for("/raw/all"), Some(Route::PlainCombined));
    assert_eq!(route_for("/raw/headers"), Some(Route::PlainHeaders));
    assert_eq!(route_for("/json/ip"), Some(Route::JsonAddress));
    assert_eq!(route_for("/json/useragent"), Some(Route::JsonUserAgent));
    assert_eq!(route_for("/json/headers"), Some(Route::JsonHeaders));
    assert_eq!(route_for("/json/all"), Some(Route::JsonCombined));
    assert_eq!(route_for("/nope"), None);
    assert_eq!(route_for("/IP"), None);
    assert_eq!(route_for(""), None);
}

#[test]
fn unknown_route_is_left_to_transport() {
    assert!(handle("/missing", Some("1.2.3.4:1"), &raw(&[])).is_none());
}

#[test]
fn malformed_header_value_fails_request() {
    let bad = raw(&[("X-Bin", &[0xff, 0x41]), ("User-Agent", b"curl")]);
    let r = handle("/raw/headers", Some("1.2.3.4:1"), &bad).unwrap();
    assert_eq!(r.status, 500);
    assert_eq!(r.body, "");
    let r = handle("/json/all", None, &bad).unwrap();
    assert_eq!(r.status, 500);
    let r = handle("/ip", Some("1.2.3.4:1"), &bad).unwrap();
    assert_eq!(r.status, 200);
    assert_eq!(r.body, "1.2.3.4\n");
}

#[test]
fn header_value_text_check() {
    assert_eq!(value_text(&b"a\tb ~".to_vec()), Some("a\tb ~".to_string()));
    assert_eq!(value_text(&vec![0x7f]), None);
    assert_eq!(value_text(&vec![0x1f]), None);
    assert_eq!(value_text(&vec![]), Some(String::new()));
    let hs = decode_headers(&raw(&[("A", b"x"), ("B", b"y")])).unwrap();
    assert_eq!(hs.entries.len(), 2);
    assert_eq!(hs.entries[1].name, "B");
    assert_eq!(hs.entries[1].value, "y");
    assert!(decode_headers(&raw(&[("A", b"x"), ("B", &[0x80])])).is_none());
}

#[test]
fn combined_route_with_no_connection_info() {
    let r = handle("/all", None, &raw(&[("Host", b"h")])).unwrap();
    assert_eq!(r.body, "ip: \nHost: h\n");
}

#[test]
fn landing_ignores_unrelated_malformed_header() {
    let hs = raw(&[("X-Bin", &[0xff]), ("User-Agent", b"Mozilla/5.0")]);
    let r = handle("/", Some("203.0.113.5:51342"), &hs).unwrap();
    assert_eq!(r.status, 200);
    assert_eq!(r.content_type, ContentType::PlainText);
    assert_eq!(r.body, landing("203.0.113.5"));
    assert!(r.body.starts_with("your ip is: 203.0.113.5\n"));
    let hs = raw(&[("X-Bin", &[0xff]), ("user-agent", b"curl/8.0.1")]);
    let r = handle("/", Some("203.0.113.5:51342"), &hs).unwrap();
    assert_eq!(r.status, 200);
    assert_eq!(r.body, "203.0.113.5\n");
}

#[test]
fn user_agent_routes_ignore_unrelated_malformed_header() {
    let hs = raw(&[("User-Agent", b"curl/8.0.1"), ("X-Bin", &[0x80, 0x00])]);
    let r = handle("/ua", None, &hs).unwrap();
    assert_eq!(r.status, 200);
    assert_eq!(r.body, "curl/8.0.1\n");
    let r = handle("/raw/useragent", None, &hs).unwrap();
    assert_eq!(r.body, "curl/8.0.1\n");
    let r = handle("/json/useragent", None, &hs).unwrap();
    assert_eq!(r.status, 200);
    assert_eq!(r.body, "{\"user-agent\":\"curl/8.0.1\"}");
    assert_eq!(r.content_type.as_str(), "application/json; charset=utf-8");
    let r = handle("/ua", None, &raw(&[("X-Bin", &[0xff])])).unwrap();
    assert_eq!(r.status, 200);
    assert_eq!(r.body, "Unknown\n");
}

#[test]
fn malformed_user_agent_fails_user_agent_routes() {
    let hs = raw(&[("Host", b"h"), ("User-Agent", &[0x63, 0xff])]);
    for path in ["/", "/ua", "/raw/useragent", "/json/useragent"] {
        let r = handle(path, Some("1.2.3.4:1"), &hs).unwrap();
        assert_eq!(r.status, 500);
        assert_eq!(r.body, "");
        assert_eq!(r.content_type, ContentType::PlainText);
    }
    let r = handle("/json/ip", Some("1.2.3.4:1"), &hs).unwrap();
    assert_eq!(r.status, 200);
}

#[test]
fn first_user_agent_header_decides() {
    let hs = raw(&[("User-Agent", b"curl/1"), ("USER-AGENT", &[0xff])]);
    let r = handle("/ua", None, &hs).unwrap();
    assert_eq!(r.status, 200);
    assert_eq!(r.body, "curl/1\n");
}
