use bolt_web::path::{match_path, route_specificity};
use bolt_web::router::Router;
use bolt_web::types::Method;

fn pairs(v: &[(&str, &str)]) -> Vec<(String, String)> {
    v.iter().map(|(k, x)| (k.to_string(), x.to_string())).collect()
}

#[test]
fn static_route_resolves_with_no_params() {
    let mut r = Router::new();
    r.insert("/health", Method::GET, 7);
    r.insert("/health", Method::POST, 8);
    assert_eq!(r.find("/health", Method::GET), Some((7, vec![])));
    assert_eq!(r.find("/health", Method::POST), Some((8, vec![])));
    assert_eq!(r.find("/health", Method::PUT), None);
}

#[test]
fn param_route_captures_one_segment() {
    let mut r = Router::new();
    r.insert("/users/:id", Method::GET, 1);
    assert_eq!(r.find("/users/42", Method::GET), Some((1, pairs(&[("id", "42")]))));
    assert_eq!(r.find("/users/42/x", Method::GET), None);
}

#[test]
fn catch_all_takes_longer_paths() {
    let mut r = Router::new();
    r.insert("/users/:id", Method::GET, 1);
    r.insert("/users/*", Method::GET, 2);
    assert_eq!(r.find("/users/42/x", Method::GET), Some((2, vec![])));
}

#[test]
fn named_catch_all_joins_the_rest() {
    assert_eq!(
        match_path("/files/:rest*", "/files/a/b/c"),
        Some(pairs(&[("rest", "a/b/c")]))
    );
    assert_eq!(match_path("/files/:rest*", "/files"), None);
    assert_eq!(match_path("/files/*", "/files"), None);
    assert_eq!(match_path("/files/*", "/files/a"), Some(vec![]));
}

#[test]
fn deeper_param_route_is_the_only_match() {
    let mut r = Router::new();
    r.insert("/a", Method::GET, 1);
    r.insert("/a/:b", Method::GET, 2);
    assert_eq!(r.match_path("/a", "/a/1"), None);
    assert_eq!(r.find("/a/1", Method::GET), Some((2, pairs(&[("b", "1")]))));
    assert_eq!(r.find("/a", Method::GET), Some((1, vec![])));
}

#[test]
fn literal_segment_beats_parameter() {
    let mut r = Router::new();
    r.insert("/users/:id", Method::GET, 1);
    r.insert("/users/me", Method::GET, 2);
    assert_eq!(r.find("/users/me", Method::GET), Some((2, vec![])));
    assert_eq!(r.find("/users/7", Method::GET), Some((1, pairs(&[("id", "7")]))));
}

#[test]
fn specificity_counts_literal_segments() {
    assert_eq!(route_specificity("/a/:b"), 1);
    assert_eq!(route_specificity("/a/b/c"), 3);
    assert_eq!(route_specificity("/a/*"), 1);
    assert_eq!(route_specificity("/:x/:y*"), 0);
    assert_eq!(route_specificity("/"), 0);
}

#[test]
fn literals_compare_exactly() {
    assert_eq!(match_path("/Users", "/users"), None);
    assert_eq!(match_path("/users", "/users"), Some(vec![]));
    assert_eq!(match_path("/a/", "/a"), Some(vec![]));
    assert_eq!(match_path("/", "/"), Some(vec![]));
    assert_eq!(match_path("/a/b", "/a"), None);
}

#[test]
fn repeated_parameter_name_keeps_both_captures() {
    let got = match_path("/:x/:x", "/1/2").unwrap();
    assert_eq!(got, pairs(&[("x", "1"), ("x", "2")]));
    assert_eq!(bolt_web::request::param(&got, "x"), "2");
}

#[test]
fn middleware_runs_shorter_prefix_first() {
    let mut r = Router::new();
    r.insert_middleware("/admin", Method::GET, 2);
    r.insert_middleware("/", Method::GET, 1);
    r.insert_middleware("/", Method::GET, 3);
    assert_eq!(r.collect_middleware("/admin/panel", Method::GET), vec![1, 3, 2]);
    assert_eq!(r.collect_middleware("/other", Method::GET), vec![1, 3]);
    assert_eq!(r.collect_middleware("/admin/panel", Method::POST), Vec::<usize>::new());
}

#[test]
fn middleware_prefix_is_plain_text() {
    let mut r = Router::new();
    r.insert_middleware("/user", Method::GET, 5);
    assert_eq!(r.collect_middleware("/users/5", Method::GET), vec![5]);
    assert_eq!(r.collect_middleware("/username", Method::GET), vec![5]);
    assert_eq!(r.collect_middleware("/use", Method::GET), Vec::<usize>::new());
}

#[test]
fn later_registration_replaces_handler() {
    let mut r = Router::new();
    r.insert("/x", Method::GET, 1);
    r.insert("/x", Method::GET, 2);
    assert_eq!(r.find("/x", Method::GET), Some((2, vec![])));
}

#[test]
fn empty_pattern_is_not_stored() {
    let mut r = Router::new();
    r.insert("", Method::GET, 1);
    assert_eq!(r.find("", Method::GET), None);
    assert_eq!(r.collect_middleware("", Method::GET), Vec::<usize>::new());
}

#[test]
fn unregistered_path_finds_nothing() {
    let mut r = Router::new();
    r.insert("/a", Method::GET, 1);
    assert_eq!(r.find("/missing", Method::GET), None);
}

#[test]
fn static_pattern_wins_a_specificity_tie() {
    let mut r = Router::new();
    r.insert("/:x", Method::GET, 1);
    r.insert("/", Method::GET, 2);
    assert_eq!(r.find("/", Method::GET), Some((2, vec![])));
    let mut r2 = Router::new();
    r2.insert("/a/:x/b", Method::GET, 1);
    r2.insert("/a//b", Method::GET, 2);
    assert_eq!(r2.find("/a//b", Method::GET), Some((2, vec![])));
}

#[test]
fn catch_all_needs_a_segment() {
    let mut r = Router::new();
    r.insert("/p/*", Method::GET, 1);
    r.insert("/p", Method::GET, 2);
    assert_eq!(r.find("/p", Method::GET), Some((2, vec![])));
    assert_eq!(r.find("/p/q", Method::GET), Some((1, vec![])));
}

#[test]
fn catch_all_only_counts_as_last_segment() {
    assert_eq!(match_path("/*/b/c", "/x"), None);
    assert_eq!(match_path("/*/b", "/*/b"), Some(vec![]));
    assert_eq!(match_path("/*/b", "/y/b"), None);
    assert_eq!(match_path("/:x*/b", "/v/b"), Some(pairs(&[("x*", "v")])));
    let mut r = Router::new();
    r.insert("/x", Method::GET, 1);
    r.insert("/*/b/c", Method::GET, 2);
    assert_eq!(r.find("/x", Method::GET), Some((1, vec![])));
}
