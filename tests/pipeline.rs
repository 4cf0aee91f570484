use bolt_web::dispatch::{Action, Pipeline, Stage};
use bolt_web::errors::{decimal, default_error_handler, settle, Outcome};
use bolt_web::http::StatusCode;
use bolt_web::response::ResponseWriter;
use bolt_web::server::App;
use bolt_web::types::Method;

/// What each registered piece does when it runs, for these tests.
#[derive(Clone, Debug, PartialEq)]
enum Piece {
    Mark(&'static str),
    Fail(&'static str),
}

fn run(app: &App<Piece, Piece, ()>, method: Option<Method>, path: &str) -> (ResponseWriter, Vec<String>) {
    let mut res = ResponseWriter::new();
    let mut trace = Vec::new();
    let mut p: Pipeline = app.begin(method, path, &mut res);
    loop {
        match p.step(&mut res) {
            Action::RunMiddleware(id) | Action::RunHandler(id) => {
                let piece = app
                    .middleware_at(id)
                    .filter(|_| p.stage == Stage::Middleware)
                    .or_else(|| app.handler(id))
                    .unwrap()
                    .clone();
                match piece {
                    Piece::Mark(name) => trace.push(name.to_string()),
                    Piece::Fail(msg) => {
                        trace.push(format!("fail:{}", msg));
                        res.error(StatusCode::Unauthorized, msg);
                    }
                }
            }
            Action::RunErrorHandler(msg) => trace.push(format!("error-handler:{}", msg)),
            Action::Finish => break,
        }
    }
    (res, trace)
}

fn app() -> App<Piece, Piece, ()> {
    App::new()
}

#[test]
fn middleware_then_handler_in_order() {
    let mut a = app();
    a.middleware("/admin", Some(Method::GET), Piece::Mark("admin-mw"));
    a.middleware("/", None, Piece::Mark("root-mw"));
    a.get("/admin/panel", Piece::Mark("panel"));
    let (res, trace) = run(&a, Some(Method::GET), "/admin/panel");
    assert_eq!(trace, vec!["root-mw", "admin-mw", "panel"]);
    assert!(!res.has_error());
    assert_eq!(res.status, StatusCode::OK);
}

#[test]
fn failing_middleware_stops_the_pipeline() {
    let mut a = app();
    a.middleware("/", Some(Method::GET), Piece::Fail("denied"));
    a.middleware("/secret", Some(Method::GET), Piece::Mark("never"));
    a.get("/secret", Piece::Mark("handler"));
    let (res, trace) = run(&a, Some(Method::GET), "/secret");
    assert_eq!(trace, vec!["fail:denied", "error-handler:denied"]);
    assert!(res.has_error());
    assert_eq!(res.status, StatusCode::Unauthorized);
}

#[test]
fn missing_route_is_not_found_with_method_and_path() {
    let mut a = app();
    a.get("/present", Piece::Mark("h"));
    let (res, trace) = run(&a, Some(Method::GET), "/missing");
    assert_eq!(trace, vec!["error-handler:Not Found GET /missing"]);
    assert_eq!(res.status, StatusCode::NotFound);
    assert!(res.body.contains("GET /missing"));
}

#[test]
fn unknown_method_is_405_without_routing() {
    let mut a = app();
    a.middleware("/", None, Piece::Mark("mw"));
    a.get("/x", Piece::Mark("h"));
    let method = Method::from_name("BREW");
    assert_eq!(method, None);
    let (res, trace) = run(&a, method, "/x");
    assert!(trace.is_empty());
    assert_eq!(res.status, StatusCode::MethodNotAllowed);
    assert_eq!(res.body, "Method Not Allowed");
    assert!(!res.has_error());
}

#[test]
fn failing_handler_reaches_error_handler() {
    let mut a = app();
    a.get("/x", Piece::Fail("broken"));
    let (res, trace) = run(&a, Some(Method::GET), "/x");
    assert_eq!(trace, vec!["fail:broken", "error-handler:broken"]);
    assert!(res.has_error());
}

#[test]
fn latest_handler_is_invoked() {
    let mut a = app();
    a.get("/x", Piece::Mark("first"));
    a.get("/x", Piece::Mark("second"));
    let (_, trace) = run(&a, Some(Method::GET), "/x");
    assert_eq!(trace, vec!["second"]);
}

#[test]
fn route_params_reach_the_request() {
    let mut a = app();
    a.get("/users/:id", Piece::Mark("user"));
    let mut res = ResponseWriter::new();
    let p = a.begin(Some(Method::GET), "/users/42", &mut res);
    assert_eq!(p.params(), vec![("id".to_string(), "42".to_string())]);
}

#[test]
fn fault_gives_500_and_next_request_is_served() {
    let res = settle(Outcome::Faulted);
    assert_eq!(res.status, StatusCode::InternalServerError);
    assert_eq!(res.body, "Internal Server Error");
    let mut a = app();
    a.get("/ok", Piece::Mark("ok"));
    let (res2, trace) = run(&a, Some(Method::GET), "/ok");
    assert_eq!(trace, vec!["ok"]);
    assert_eq!(res2.status, StatusCode::OK);
}

#[test]
fn timeout_gives_408_without_error_handler() {
    let res = settle(Outcome::TimedOut);
    assert_eq!(res.status, StatusCode::RequestTimeout);
    assert_eq!(res.body, "Request Timeout");
    assert_eq!(res.get_code(res.status), 408);
}

#[test]
fn completed_response_is_kept() {
    let mut w = ResponseWriter::new();
    w.send("hello");
    let res = settle(Outcome::Completed(w));
    assert_eq!(res.body, "hello");
    assert_eq!(res.status, StatusCode::OK);
}

#[test]
fn default_error_handler_keeps_client_message() {
    let mut res = ResponseWriter::new();
    res.error(StatusCode::NotFound, "Not Found GET /x");
    let msg = res.body.clone();
    default_error_handler(&msg, &mut res);
    assert_eq!(res.body, r#"{"message":"Not Found GET /x","status":404}"#);
    assert_eq!(res.get_header("Content-Type"), Some("application/json".to_string()));
    assert_eq!(res.status, StatusCode::NotFound);
}

#[test]
fn default_error_handler_hides_server_errors() {
    let mut res = ResponseWriter::new();
    res.error(StatusCode::BadGateway, "db password is \"x\"");
    let msg = res.body.clone();
    default_error_handler(&msg, &mut res);
    assert_eq!(res.body, r#"{"message":"Internal Server Error","status":502}"#);
}

#[test]
fn default_error_handler_escapes_quotes() {
    let mut res = ResponseWriter::new();
    res.error(StatusCode::BadRequest, "bad \"id\"");
    let msg = res.body.clone();
    default_error_handler(&msg, &mut res);
    assert_eq!(res.body, r#"{"message":"bad \"id\"","status":400}"#);
}

#[test]
fn decimal_notation() {
    assert_eq!(decimal(0), "0");
    assert_eq!(decimal(405), "405");
    assert_eq!(decimal(86400), "86400");
}

#[test]
fn app_defaults() {
    let a = app();
    let l = a.limits();
    assert_eq!(l.timeout, 30);
    assert_eq!(l.connection_limit, 100);
    assert_eq!(l.read_timeout, 10);
    assert_eq!(l.header_limit, 32768);
    assert!(a.error_handler().is_none());
}

#[test]
fn app_setters() {
    let mut a = app();
    a.set_timeout(5);
    a.set_connection_limit(2);
    a.set_read_timeout(3);
    a.set_header_limit(1024);
    a.set_error_handler(());
    let l = a.limits();
    assert_eq!((l.timeout, l.connection_limit, l.read_timeout, l.header_limit), (5, 2, 3, 1024));
    assert!(a.error_handler().is_some());
}

#[test]
fn group_registers_under_prefix() {
    let mut a = app();
    {
        let mut g = a.group("/api");
        g.get("/users", Piece::Mark("users"));
        g.post("/users", Piece::Mark("create"));
        g.middleware("/users", Some(Method::GET), Piece::Mark("auth"));
        let mut inner = g.group("/v1");
        inner.delete("/x", Piece::Mark("del"));
    }
    let (_, trace) = run(&a, Some(Method::GET), "/api/users");
    assert_eq!(trace, vec!["auth", "users"]);
    let (_, trace) = run(&a, Some(Method::DELETE), "/api/v1/x");
    assert_eq!(trace, vec!["del"]);
}
