use inertia_rs::fairing::{GuardDecision, VersionFairing};
use inertia_rs::page::{Inertia, PageObject};
use inertia_rs::request::{names_match, RequestInfo};
use inertia_rs::response::{version_conflict, server_error, HtmlResponseContext, Response};
use inertia_rs::decode::decode_page;
use inertia_rs::wire::{encode_page, push_json_str};
use inertia_rs::{X_INERTIA, X_INERTIA_LOCATION, X_INERTIA_VERSION};

const CURRENT_VERSION: &str = "1";

fn render(_request: &RequestInfo, ctx: &HtmlResponseContext) -> Response {
    Response {
        status: 200,
        headers: vec![(
            "Content-Type".to_string(),
            "text/plain; charset=utf-8".to_string(),
        )],
        body: ctx.data_page.clone(),
    }
}

fn fairing() -> VersionFairing<fn(&RequestInfo, &HtmlResponseContext) -> Response> {
    VersionFairing::new(CURRENT_VERSION, render as fn(&RequestInfo, &HtmlResponseContext) -> Response)
}

fn props() -> serde_json::Value {
    let mut m = serde_json::Map::new();
    m.insert("n".to_string(), serde_json::Value::from(42));
    serde_json::Value::Object(m)
}

fn get(path: &str, headers: &[(&str, &str)]) -> RequestInfo {
    RequestInfo {
        method: "GET".to_string(),
        path: path.to_string(),
        headers: headers
            .iter()
            .map(|(n, v)| (n.to_string(), v.to_string()))
            .collect(),
    }
}

// Plays the host framework: the guard first, then routing, then the handler.
fn dispatch(
    f: &VersionFairing<fn(&RequestInfo, &HtmlResponseContext) -> Response>,
    request: &RequestInfo,
) -> Response {
    if let Some(conflict) = f.on_request(request) {
        return conflict;
    }
    if request.path == "/foo" {
        Inertia::response("foo", props()).respond_to(request, f)
    } else {
        Response { status: 404, headers: Vec::new(), body: String::new() }
    }
}

fn get_one<'a>(r: &'a Response, name: &str) -> Option<&'a str> {
    r.headers
        .iter()
        .find(|(n, _)| n.eq_ignore_ascii_case(name))
        .map(|(_, v)| v.as_str())
}

#[test]
fn json_inertia_response_sent() {
    let f = fairing();
    let resp = dispatch(&f, &get("/foo", &[(X_INERTIA, "true")]));
    assert_eq!(resp.status, 200);
    assert_eq!(get_one(&resp, "Content-Type"), Some("application/json"));
}

#[test]
fn html_response_sent() {
    let f = fairing();
    let resp = dispatch(&f, &get("/foo", &[]));
    assert_eq!(resp.status, 200);
    assert_eq!(get_one(&resp, "Content-Type"), Some("text/plain; charset=utf-8"));
}

#[test]
fn json_sent_versions_eq() {
    let f = fairing();
    let resp = dispatch(
        &f,
        &get("/foo", &[(X_INERTIA, "true"), (X_INERTIA_VERSION, CURRENT_VERSION)]),
    );
    assert_eq!(resp.status, 200);
    assert_eq!(get_one(&resp, "Content-Type"), Some("application/json"));
}

#[test]
fn json_sent_versions_different() {
    let f = fairing();
    let resp = dispatch(
        &f,
        &get("/foo", &[(X_INERTIA, "true"), (X_INERTIA_VERSION, "OUTDATED_VERSION")]),
    );
    assert_eq!(resp.status, 409);
}

#[test]
fn json_sent_version_absent() {
    let f = fairing();
    let resp = dispatch(&f, &get("/foo", &[(X_INERTIA, "true")]));
    assert_eq!(resp.status, 200);
    assert_eq!(get_one(&resp, "Content-Type"), Some("application/json"));
}

#[test]
fn not_found_response() {
    let f = fairing();
    let resp = dispatch(&f, &get("/not/a/real/path", &[(X_INERTIA, "true")]));
    assert_eq!(resp.status, 404);
}

#[test]
fn scenario_no_version_header_gets_current_version() {
    let f = fairing();
    let resp = dispatch(&f, &get("/foo", &[(X_INERTIA, "true")]));
    assert_eq!(resp.status, 200);
    assert_eq!(
        resp.body,
        "{\"component\":\"foo\",\"url\":\"/foo\",\"version\":\"1\",\"props\":{\"n\":42}}"
    );
}

#[test]
fn scenario_matching_version_echoes_marker() {
    let f = fairing();
    let resp = dispatch(&f, &get("/foo", &[(X_INERTIA, "true"), (X_INERTIA_VERSION, "1")]));
    assert_eq!(resp.status, 200);
    assert_eq!(get_one(&resp, X_INERTIA), Some("true"));
    assert_eq!(get_one(&resp, "Content-Type"), Some("application/json"));
}

#[test]
fn scenario_stale_version_conflicts() {
    let f = fairing();
    let resp = dispatch(&f, &get("/foo", &[(X_INERTIA, "true"), (X_INERTIA_VERSION, "0")]));
    assert_eq!(resp.status, 409);
    assert_eq!(get_one(&resp, X_INERTIA_LOCATION), Some("/foo"));
    assert_eq!(resp.body, "");
}

#[test]
fn scenario_plain_request_rendered() {
    let f = fairing();
    let resp = dispatch(&f, &get("/foo", &[]));
    assert_eq!(resp.status, 200);
    assert_eq!(
        resp.body,
        "{\"component\":\"foo\",\"url\":\"/foo\",\"version\":\"1\",\"props\":{\"n\":42}}"
    );
    assert_eq!(get_one(&resp, X_INERTIA), None);
}

#[test]
fn scenario_unknown_route_not_intercepted() {
    let f = fairing();
    let resp = dispatch(&f, &get("/nowhere", &[(X_INERTIA, "true"), (X_INERTIA_VERSION, "1")]));
    assert_eq!(resp.status, 404);
}

#[test]
fn guard_ignores_other_methods() {
    let f = fairing();
    let mut r = get("/foo", &[(X_INERTIA, "true"), (X_INERTIA_VERSION, "0")]);
    r.method = "POST".to_string();
    assert!(matches!(f.check(&r), GuardDecision::Proceed));
}

#[test]
fn guard_ignores_plain_requests() {
    let f = fairing();
    let r = get("/foo", &[(X_INERTIA_VERSION, "0")]);
    assert!(matches!(f.check(&r), GuardDecision::Proceed));
}

#[test]
fn guard_is_stable_and_flips_on_version() {
    let f = fairing();
    let a = get("/foo?page=2", &[(X_INERTIA, "true"), (X_INERTIA_VERSION, "1")]);
    assert!(matches!(f.check(&a), GuardDecision::Proceed));
    assert!(matches!(f.check(&a), GuardDecision::Proceed));
    let b = get("/foo?page=2", &[(X_INERTIA, "true"), (X_INERTIA_VERSION, "2")]);
    match f.check(&b) {
        GuardDecision::Divert(loc) => assert_eq!(loc, "/foo?page=2"),
        GuardDecision::Proceed => panic!("stale version was not diverted"),
    }
}

#[test]
fn header_names_ignore_case() {
    assert!(names_match("x-inertia", "X-Inertia"));
    assert!(!names_match("X-Inertia-Version", "X-Inertia"));
    assert!(!names_match("X-Inertib", "X-Inertia"));
    let r = get("/foo", &[("x-inertia-version", "7"), ("X-Inertia-Version", "8")]);
    assert_eq!(r.inertia_version(), Some("7".to_string()));
    assert!(!r.inertia_request());
}

#[test]
fn explicit_url_wins() {
    let page = Inertia::response("foo", 5u8).with_url("/bar").into_page("/foo", "3");
    assert_eq!(page.url, "/bar");
    assert_eq!(page.component, "foo");
    assert_eq!(page.props, 5u8);
    assert_eq!(page.version, Some("3".to_string()));
    let page = Inertia::response("foo", 5u8).into_page("/foo", "3");
    assert_eq!(page.url, "/foo");
}

#[test]
fn with_url_carries_into_json() {
    let f = fairing();
    let r = get("/foo", &[(X_INERTIA, "true")]);
    let resp = Inertia::response("Users/Index", "[1,2]".to_string())
        .with_url("/users")
        .respond_json(&r, &f);
    assert_eq!(
        resp.body,
        "{\"component\":\"Users/Index\",\"url\":\"/users\",\"version\":\"1\",\"props\":[1,2]}"
    );
}

#[test]
fn strings_are_escaped() {
    let mut out = String::new();
    push_json_str(&mut out, "a\"b\\c\nd\u{1f}é");
    assert_eq!(out, "\"a\\\"b\\\\c\\nd\\u001fé\"");
    let mut empty = String::new();
    push_json_str(&mut empty, "");
    assert_eq!(empty, "\"\"");
}

#[test]
fn escaping_agrees_with_serde_json() {
    let s = "tab\there \"quoted\" back\\slash \u{7} bell";
    let mut out = String::new();
    push_json_str(&mut out, s);
    let back: String = serde_json::from_str(&out).unwrap();
    assert_eq!(back, s);
}

#[test]
fn escaping_matches_serde_json_text() {
    let samples = [
        "",
        "plain",
        "q\"b\\",
        "\u{8}\u{c}\n\r\t",
        "\u{0}\u{1}\u{b}\u{1f}\u{7f}",
        "é ü 日本 /slash",
    ];
    for s in samples {
        let mut out = String::new();
        push_json_str(&mut out, s);
        assert_eq!(out, serde_json::to_string(s).unwrap());
    }
}

#[test]
fn decode_reads_short_escapes() {
    let text = "{\"component\":\"a\\tb\\r\\f\\b\",\"url\":\"/\",\"version\":null,\"props\":{}}";
    let page = decode_page(text).unwrap();
    assert_eq!(page.component, "a\tb\r\u{c}\u{8}");
    assert_eq!(page.props, "{}");
}

#[test]
fn page_without_version_encodes_null() {
    let page = PageObject {
        component: "c".to_string(),
        props: "null".to_string(),
        url: "/".to_string(),
        version: None,
    };
    assert_eq!(
        encode_page(&page),
        "{\"component\":\"c\",\"url\":\"/\",\"version\":null,\"props\":null}"
    );
}

#[test]
fn encoded_page_parses_back() {
    let page = PageObject {
        component: "Some \"odd\" name".to_string(),
        props: "{\"list\":[1,2,{\"k\":\"v\"}]}".to_string(),
        url: "/a/b?c=d".to_string(),
        version: Some("abc\n".to_string()),
    };
    let text = encode_page(&page);
    let v: serde_json::Value = serde_json::from_str(&text).unwrap();
    assert_eq!(v["component"], "Some \"odd\" name");
    assert_eq!(v["url"], "/a/b?c=d");
    assert_eq!(v["version"], "abc\n");
    let props: serde_json::Value = serde_json::from_str(&page.props).unwrap();
    assert_eq!(v["props"], props);
}

#[test]
fn conflict_response_shape() {
    let r = version_conflict("/x?y=1".to_string());
    assert_eq!(r.status, 409);
    assert_eq!(get_one(&r, X_INERTIA_LOCATION), Some("/x?y=1"));
    assert_eq!(r.body, "");
}

#[test]
fn server_error_shape() {
    let r = server_error();
    assert_eq!(r.status, 500);
    assert!(r.headers.is_empty());
    assert_eq!(r.body, "");
}

#[test]
fn decode_reads_back_encoded_page() {
    let page = PageObject {
        component: "Q\"\\\u{0}".to_string(),
        props: "{\"a\":\"}\"}".to_string(),
        url: "/p?q=1".to_string(),
        version: Some("v\t2".to_string()),
    };
    let back = decode_page(&encode_page(&page)).unwrap();
    assert_eq!(back.component, page.component);
    assert_eq!(back.url, page.url);
    assert_eq!(back.version, page.version);
    assert_eq!(back.props, page.props);
    let none = PageObject { version: None, ..page };
    assert_eq!(decode_page(&encode_page(&none)).unwrap().version, None);
}

#[test]
fn decode_rejects_malformed_text() {
    assert!(decode_page("").is_none());
    assert!(decode_page("{\"component\":\"c\",\"url\":\"/\",\"version\":null,\"props\":1").is_none());
    assert!(decode_page("{\"component\":\"c\\x\",\"url\":\"/\",\"version\":null,\"props\":1}").is_none());
    assert!(decode_page("{\"url\":\"/\",\"component\":\"c\",\"version\":null,\"props\":1}").is_none());
    let ok = decode_page("{\"component\":\"c\\u0041\",\"url\":\"/\",\"version\":null,\"props\":1}")
        .unwrap();
    assert_eq!(ok.component, "cA");
    let ok = decode_page("{\"component\":\"c\\u000a\",\"url\":\"/\",\"version\":null,\"props\":1}")
        .unwrap();
    assert_eq!(ok.component, "c\n");
    assert_eq!(ok.props, "1");
}
