use std::sync::Arc;

use bolt_web::cookies::{cookie_attrs, same_site_from_lower, SameSitePolicy};
use bolt_web::connection::{advance, ConnEvent, ConnState};
use bolt_web::group::join_prefix;
use bolt_web::headers::LimitReader;
use bolt_web::http::StatusCode;
use bolt_web::middleware::{helmet, too_many_requests, Cors, CorsConfig, RateLimiterConfig};
use bolt_web::request::{cookie_value, param, query_pairs, query_param};
use bolt_web::types::FormData;
use bolt_web::response::ResponseWriter;
use bolt_web::types::Method;

#[test]
fn method_names() {
    assert_eq!(Method::from_name("GET"), Some(Method::GET));
    assert_eq!(Method::from_name("TRACE"), Some(Method::TRACE));
    assert_eq!(Method::from_name("get"), None);
    assert_eq!(Method::from_name("CONNECT"), None);
    assert_eq!(Method::PATCH.as_str(), "PATCH");
    assert_eq!(Method::at(Method::DELETE.index()), Method::DELETE);
}

#[test]
fn status_codes() {
    assert_eq!(StatusCode::OK.code(), 200);
    assert_eq!(StatusCode::TooManyRequests.code(), 429);
    assert_eq!(StatusCode::HTTPVersionNotSupported.code(), 505);
    assert_eq!(StatusCode::from_code(404), Some(StatusCode::NotFound));
    assert_eq!(StatusCode::from_code(418), None);
}

#[test]
fn limit_reader_counts_bytes() {
    let mut r = LimitReader::new((), 10);
    assert_eq!(r.bytes_read(), 0);
    assert!(r.record(0, 6));
    assert!(r.record(6, 10));
    assert_eq!(r.bytes_read(), 10);
    assert!(!r.record(10, 11));
    assert_eq!(r.max(), 10);
}

#[test]
fn limit_reader_ignores_shrinking_buffer() {
    let mut r = LimitReader::new(0u8, 4);
    assert!(r.record(5, 2));
    assert_eq!(r.bytes_read(), 0);
    *r.inner_mut() = 9;
    assert_eq!(*r.inner_mut(), 9);
}

#[test]
fn connection_without_token_is_closed() {
    assert_eq!(advance(false, ConnState::Accepted, ConnEvent::Permit(false)), ConnState::Closed);
    assert_eq!(advance(true, ConnState::Accepted, ConnEvent::Permit(false)), ConnState::Closed);
}

#[test]
fn connection_lifecycle() {
    assert_eq!(advance(false, ConnState::Accepted, ConnEvent::Permit(true)), ConnState::Serving);
    assert_eq!(advance(true, ConnState::Accepted, ConnEvent::Permit(true)), ConnState::Handshaking);
    assert_eq!(advance(true, ConnState::Handshaking, ConnEvent::Handshake(true)), ConnState::Serving);
    assert_eq!(advance(true, ConnState::Handshaking, ConnEvent::Handshake(false)), ConnState::Closed);
    assert_eq!(advance(false, ConnState::Serving, ConnEvent::Ended), ConnState::Closed);
}

#[test]
fn headers_replace_and_strip() {
    let mut res = ResponseWriter::new();
    res.set_header("X-A", "1").set_header("X-B", "2").set_header("X-A", "3");
    assert_eq!(
        res.headers,
        vec![("X-B".to_string(), "2".to_string()), ("X-A".to_string(), "3".to_string())]
    );
    res.append_header("Set-Cookie", "a=1");
    res.append_header("Set-Cookie", "b=2");
    assert_eq!(res.get_header("Set-Cookie"), Some("a=1".to_string()));
    res.strip_header("Set-Cookie");
    assert_eq!(res.get_header("Set-Cookie"), None);
    assert_eq!(res.get_header("X-B"), Some("2".to_string()));
}

#[test]
fn html_sets_body_and_type() {
    let mut res = ResponseWriter::new();
    res.html("<p>hi</p>").status(StatusCode::Created);
    assert_eq!(res.body, "<p>hi</p>");
    assert_eq!(res.get_header("Content-Type"), Some("text/html; charset=utf-8".to_string()));
    assert_eq!(res.get_code(res.status), 201);
}

#[test]
fn cors_defaults_allow_everyone() {
    let cfg = CorsConfig::default();
    assert_eq!(cfg.allowed_origins, vec!["*".to_string()]);
    assert!(cfg.allow_all);
    assert_eq!(cfg.max_age, Some(86400));
    let cors = Cors { config: Arc::new(cfg) };
    let mut res = ResponseWriter::new();
    cors.apply(Some("https://a.example"), Some(Method::GET), &mut res);
    assert_eq!(res.get_header("Access-Control-Allow-Origin"), Some("*".to_string()));
    assert_eq!(res.get_header("Access-Control-Max-Age"), Some("86400".to_string()));
    assert_eq!(res.get_header("Access-Control-Allow-Credentials"), None);
    assert_eq!(res.status, StatusCode::OK);
}

#[test]
fn cors_echoes_listed_origin_only() {
    let cfg = CorsConfig {
        allowed_origins: vec!["https://a.example".to_string()],
        allow_all: false,
        allow_methods: "GET".to_string(),
        allow_headers: "X-Token".to_string(),
        allow_credentials: true,
        max_age: None,
    };
    let cors = Cors { config: Arc::new(cfg) };
    let mut res = ResponseWriter::new();
    cors.apply(Some("https://a.example"), Some(Method::OPTIONS), &mut res);
    assert_eq!(res.get_header("Access-Control-Allow-Origin"), Some("https://a.example".to_string()));
    assert_eq!(res.get_header("Access-Control-Allow-Credentials"), Some("true".to_string()));
    assert_eq!(res.get_header("Access-Control-Max-Age"), None);
    assert_eq!(res.status, StatusCode::NoContent);
    let mut other = ResponseWriter::new();
    cors.apply(Some("https://b.example"), Some(Method::GET), &mut other);
    assert_eq!(other.get_header("Access-Control-Allow-Origin"), None);
    assert_eq!(other.get_header("Access-Control-Allow-Methods"), Some("GET".to_string()));
}

#[test]
fn helmet_sets_security_headers() {
    let mut res = ResponseWriter::new();
    helmet(&mut res);
    assert_eq!(res.headers.len(), 5);
    assert_eq!(res.get_header("X-Frame-Options"), Some("SAMEORIGIN".to_string()));
    assert_eq!(res.get_header("Referrer-Policy"), Some("no-referrer".to_string()));
}

#[test]
fn rate_limiter_counts_and_refuses() {
    let cfg = RateLimiterConfig { requests: 2, per_seconds: 60 };
    let d = cfg.decide(0, 0);
    assert!(d.allowed && d.count == 1 && !d.window_reset);
    let d = cfg.decide(1, 10);
    assert!(d.allowed && d.count == 2);
    let d = cfg.decide(2, 10);
    assert!(!d.allowed && d.count == 2);
    let d = cfg.decide(2, 61);
    assert!(d.allowed && d.count == 1 && d.window_reset);
    let d = cfg.decide(2, 60);
    assert!(!d.allowed && !d.window_reset);
}

#[test]
fn rate_limited_response() {
    let mut res = ResponseWriter::new();
    too_many_requests(&mut res);
    assert_eq!(res.status, StatusCode::TooManyRequests);
    assert_eq!(res.body, "Too Many Requests");
}

#[test]
fn params_by_name() {
    let ps = vec![("id".to_string(), "1".to_string()), ("id".to_string(), "2".to_string())];
    assert_eq!(param(&ps, "id"), "2");
    assert_eq!(param(&ps, "name"), "");
}

#[test]
fn query_is_decoded_last_value_wins() {
    let q = Some("a=1&b=x%20y&a=3&c=d+e");
    assert_eq!(query_param(q, "a"), Some("3".to_string()));
    assert_eq!(query_param(q, "b"), Some("x y".to_string()));
    assert_eq!(query_param(q, "c"), Some("d e".to_string()));
    assert_eq!(query_param(q, "z"), None);
    assert_eq!(query_param(None, "a"), None);
    assert_eq!(query_pairs(Some("")), vec![]);
    assert_eq!(query_pairs(Some("k=v")), vec![("k".to_string(), "v".to_string())]);
}

#[test]
fn group_prefixes_join_with_one_slash() {
    assert_eq!(join_prefix("/api/", "/v1"), "/api/v1");
    assert_eq!(join_prefix("/api", "v1"), "/api/v1");
    assert_eq!(join_prefix("/api///", "//v1/"), "/api/v1/");
    assert_eq!(join_prefix("", ""), "/");
}

#[test]
fn binary_body_is_base64() {
    let mut res = ResponseWriter::new();
    res.bytes(b"hi");
    assert_eq!(res.body, "aGk=");
    assert_eq!(res.get_header("Content-Type"), Some("application/octet-stream".to_string()));
    res.bytes(b"");
    assert_eq!(res.body, "");
}

#[test]
fn cookie_lookup_in_header() {
    let h = "theme=dark;  session = abc ; id=7=8; flag";
    assert_eq!(cookie_value(h, "theme"), Some("dark".to_string()));
    assert_eq!(cookie_value(h, "id"), Some("7=8".to_string()));
    assert_eq!(cookie_value(h, "session "), Some(" abc".to_string()));
    assert_eq!(cookie_value(h, "session"), None);
    assert_eq!(cookie_value(h, "flag"), None);
    assert_eq!(cookie_value("a=1; a=2", "a"), Some("1".to_string()));
    assert_eq!(cookie_value("", "a"), None);
}

#[test]
fn form_fields_keep_last_value() {
    let mut f = FormData::new();
    f.set_field("a".to_string(), "1".to_string());
    f.set_field("b".to_string(), "2".to_string());
    f.set_field("a".to_string(), "3".to_string());
    assert_eq!(
        f.fields,
        vec![("b".to_string(), "2".to_string()), ("a".to_string(), "3".to_string())]
    );
    assert!(f.files.is_empty());
}

#[test]
fn same_site_names() {
    assert_eq!(same_site_from_lower("lax"), Some(SameSitePolicy::Lax));
    assert_eq!(same_site_from_lower("strict"), Some(SameSitePolicy::Strict));
    assert_eq!(same_site_from_lower("none"), Some(SameSitePolicy::Unrestricted));
    assert_eq!(same_site_from_lower("Lax"), None);
    assert_eq!(same_site_from_lower(""), None);
}

#[test]
fn cookie_attributes() {
    let a = cookie_attrs(None, false, true, Some("LAX"));
    assert_eq!(a.path, "/");
    assert_eq!(a.same_site, Some(SameSitePolicy::Lax));
    assert!(!a.secure && a.http_only);
    let b = cookie_attrs(Some("/app"), false, false, Some("None"));
    assert_eq!(b.path, "/app");
    assert_eq!(b.same_site, Some(SameSitePolicy::Unrestricted));
    assert!(b.secure);
    let c = cookie_attrs(None, true, false, Some("sometimes"));
    assert_eq!(c.same_site, None);
    assert!(c.secure);
}

#[test]
fn header_ceiling_at_default_size() {
    let mut r = LimitReader::new((), 32768);
    assert!(r.record(0, 32768));
    assert!(!r.record(0, 1));
    assert_eq!(r.bytes_read(), 32769);
}

#[test]
fn set_cookie_header() {
    let mut res = ResponseWriter::new();
    res.cookie("id", "7", Some(60), None, Some("example.com"), false, true, Some("LAX"));
    assert_eq!(
        res.get_header("Set-Cookie"),
        Some("id=7; HttpOnly; SameSite=Lax; Path=/; Domain=example.com; Max-Age=60".to_string())
    );
    res.cookie("s", "x", None, Some("/app"), Some(".b.example"), false, false, Some("none"));
    assert_eq!(res.headers.len(), 2);
    assert_eq!(res.headers[1].1, "s=x; SameSite=None; Secure; Path=/app; Domain=b.example");
    res.cookie("t", "", Some(-1), None, None, true, false, None);
    assert_eq!(res.headers[2].1, "t=; Secure; Path=/; Max-Age=-1");
}

#[test]
fn json_escapes_control_characters() {
    use_default_handler_with("a\nb\u{1}\u{7f}/é");
}

fn use_default_handler_with(msg: &str) {
    let mut res = ResponseWriter::new();
    res.error(StatusCode::BadRequest, msg);
    let m = res.body.clone();
    bolt_web::errors::default_error_handler(&m, &mut res);
    assert_eq!(res.body, "{\"message\":\"a\\nb\\u0001\u{7f}/é\",\"status\":400}");
}

#[test]
fn header_names_ignore_ascii_case() {
    let mut res = ResponseWriter::new();
    res.set_header("content-type", "text/plain");
    res.set_header("Content-Type", "application/json");
    assert_eq!(res.headers, vec![("Content-Type".to_string(), "application/json".to_string())]);
    assert_eq!(res.get_header("CONTENT-TYPE"), Some("application/json".to_string()));
    res.strip_header("content-TYPE");
    assert!(res.headers.is_empty());
}
