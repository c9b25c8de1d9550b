use foton::app::{App, Dispatch, Foton, HandlerRace, RaceEvent, RaceOutcome};
use foton::chain::{Pipeline, Receiver, Stage};
use foton::error::{escape_json, status_text, DefaultErrorHandler, Error, ErrorHandler, JsonErrorHandler};
use foton::extensions::{ErrorFormat, Extension, ExtensionKind, Extensions};
use foton::method::Method;
use foton::req::Req;
use foton::res::{websocket_accept, Res, ResBody};
use foton::router::{Route, Router};
use foton::server::{Admission, AfterResponse, ConnState, Connection, Listener};
use foton::table::{Resolution, RouteError, RouteTable};

fn request(method: Method, path: &str) -> Req {
    Req::new(method, path.to_string(), None, Vec::new())
}

fn body_text(res: &Res) -> String {
    match &res.body {
        ResBody::Buffered(b) => String::from_utf8(b.clone()).unwrap(),
        other => panic!("unexpected body {:?}", other),
    }
}

fn header<'a>(res: &'a Res, name: &str) -> Option<&'a str> {
    res.headers.iter().find(|(n, _)| n == name).map(|(_, v)| v.as_str())
}

fn build(app: &Foton) -> App {
    app.build().unwrap()
}

#[test]
fn test_escape_json() {
    assert_eq!(escape_json("hello"), "hello");
    assert_eq!(escape_json("hello \"world\""), "hello \\\"world\\\"");
    assert_eq!(escape_json("line1\nline2"), "line1\\nline2");
}

#[test]
fn escape_json_backslash_and_controls() {
    assert_eq!(escape_json("a\\b\tc\rd"), "a\\\\b\\tc\\rd");
    assert_eq!(escape_json(""), "");
}

#[test]
fn status_text_known_and_unknown() {
    assert_eq!(status_text(404), "Not Found");
    assert_eq!(status_text(413), "Payload Too Large");
    assert_eq!(status_text(503), "Service Unavailable");
    assert_eq!(status_text(418), "HTTP 418");
    assert_eq!(status_text(7), "HTTP 7");
}

#[test]
fn resolve_binds_parameter() {
    let mut t = RouteTable::new();
    t.register(Method::Get, "/users/:id", 1, vec![5]).unwrap();
    match t.resolve(Method::Get, "/users/42") {
        Resolution::Found { handler, middlewares, params, .. } => {
            assert_eq!(handler, 1);
            assert_eq!(middlewares, vec![5]);
            assert_eq!(params, vec![("id".to_string(), "42".to_string())]);
        }
        other => panic!("unexpected {:?}", other),
    }
}

#[test]
fn resolve_wrong_method_lists_methods() {
    let mut t = RouteTable::new();
    t.register(Method::Get, "/users/:id", 1, vec![]).unwrap();
    t.register(Method::Delete, "/users/:id", 2, vec![]).unwrap();
    match t.resolve(Method::Post, "/users/42") {
        Resolution::MethodNotAllowed { allowed, .. } => assert_eq!(allowed, vec![Method::Get, Method::Delete]),
        other => panic!("unexpected {:?}", other),
    }
    assert!(matches!(t.resolve(Method::Get, "/posts/1"), Resolution::NotFound));
}

#[test]
fn resolve_prefers_literal_over_parameter() {
    let mut t = RouteTable::new();
    t.register(Method::Get, "/users/:id", 1, vec![]).unwrap();
    t.register(Method::Get, "/users/me", 2, vec![]).unwrap();
    match t.resolve(Method::Get, "/users/me") {
        Resolution::Found { handler, params, .. } => {
            assert_eq!(handler, 2);
            assert!(params.is_empty());
        }
        other => panic!("unexpected {:?}", other),
    }
    match t.resolve(Method::Get, "/users/7") {
        Resolution::Found { handler, .. } => assert_eq!(handler, 1),
        other => panic!("unexpected {:?}", other),
    }
}

#[test]
fn resolve_wildcard_binds_rest() {
    let mut t = RouteTable::new();
    t.register(Method::Get, "/files/*path", 3, vec![]).unwrap();
    match t.resolve(Method::Get, "/files/a/b/c.txt") {
        Resolution::Found { handler, params, .. } => {
            assert_eq!(handler, 3);
            assert_eq!(params, vec![("path".to_string(), "a/b/c.txt".to_string())]);
        }
        other => panic!("unexpected {:?}", other),
    }
    assert!(matches!(t.resolve(Method::Get, "/files"), Resolution::NotFound));
}

#[test]
fn parameter_needs_non_empty_segment() {
    let mut t = RouteTable::new();
    t.register(Method::Get, "/users/:id", 1, vec![]).unwrap();
    assert!(matches!(t.resolve(Method::Get, "/users/"), Resolution::NotFound));
    assert!(matches!(t.resolve(Method::Get, "/users/1/2"), Resolution::NotFound));
}

#[test]
fn register_errors() {
    let mut t = RouteTable::new();
    assert_eq!(t.register(Method::Get, "/a/*rest/b", 1, vec![]), Err(RouteError::InvalidPattern));
    t.register(Method::Get, "/a/:x", 1, vec![]).unwrap();
    assert_eq!(t.register(Method::Get, "/a/:x", 2, vec![]), Err(RouteError::Duplicate));
    assert_eq!(t.register(Method::Get, "/:y/b", 3, vec![]), Err(RouteError::Ambiguous));
    assert_eq!(t.register(Method::Post, "/a/:other", 4, vec![]), Err(RouteError::Ambiguous));
    t.register(Method::Post, "/a/:x", 5, vec![]).unwrap();
    assert_eq!(t.len(), 1);
}

#[test]
fn dispatch_not_found_and_method_not_allowed() {
    let mut app = Foton::new();
    app.get("/users/:id", 1);
    app.post("/users/:id", 2);
    let built = build(&app);
    let mut req = request(Method::Get, "/nothing");
    match built.dispatch(&mut req, 0) {
        Dispatch::Respond(res) => {
            assert_eq!(res.status, 404);
            assert_eq!(body_text(&res), "404 Route not found");
        }
        other => panic!("unexpected {:?}", other),
    }
    let mut req = request(Method::Put, "/users/3");
    match built.dispatch(&mut req, 0) {
        Dispatch::Respond(res) => {
            assert_eq!(res.status, 405);
            assert_eq!(header(&res, "allow"), Some("GET, POST"));
            assert_eq!(body_text(&res), "405 Method PUT not allowed. Allowed methods: GET, POST");
        }
        other => panic!("unexpected {:?}", other),
    }
}

#[test]
fn dispatch_runs_handler_with_params() {
    let mut app = Foton::new();
    app.set_error_handler(ErrorFormat::Json);
    app.get("/users/:id", 9);
    let built = build(&app);
    let mut req = request(Method::Get, "/users/42");
    match built.dispatch(&mut req, 0) {
        Dispatch::Run { handler, middlewares } => {
            assert_eq!(handler, 9);
            assert!(middlewares.is_empty());
        }
        other => panic!("unexpected {:?}", other),
    }
    assert_eq!(req.param("id").map(|s| s.as_str()), Some("42"));
    assert_eq!(
        req.extensions().get(ExtensionKind::ErrorFormat),
        Some(&Extension::ErrorFormat(ErrorFormat::Json))
    );
    assert_eq!(
        req.extensions().get(ExtensionKind::Params),
        Some(&Extension::Params(vec![("id".to_string(), "42".to_string())]))
    );
}

#[test]
fn middleware_order_global_router_route() {
    let mut app = Foton::new();
    let mut outer = Router::new();
    let mut inner = Router::new();
    let mut route = Route::get("/item", 7);
    route.layer(3);
    inner.route(route);
    inner.layer(2);
    outer.nest("/in", inner);
    outer.layer(1);
    app.nest("/out", outer);
    app.attach(0);
    let built = build(&app);
    let mut req = request(Method::Get, "/out/in/item");
    let mws = match built.dispatch(&mut req, 0) {
        Dispatch::Run { handler, middlewares } => {
            assert_eq!(handler, 7);
            middlewares
        }
        other => panic!("unexpected {:?}", other),
    };
    assert_eq!(mws, vec![0, 1, 2, 3]);
    let names = ["global", "router", "inner", "route"];
    req.extensions_mut().insert(Extension::Trail(Vec::new()));
    let mut p = Pipeline::new(mws.len());
    loop {
        match p.proceed() {
            Stage::Middleware(i) => {
                if let Some(Extension::Trail(t)) = req.extensions_mut().get_mut(ExtensionKind::Trail) {
                    t.push(names[mws[i]].to_string());
                }
            }
            Stage::Handler => {
                if let Some(Extension::Trail(t)) = req.extensions_mut().get_mut(ExtensionKind::Trail) {
                    t.push("handler".to_string());
                }
                break;
            }
        }
    }
    assert_eq!(
        req.extensions().get(ExtensionKind::Trail),
        Some(&Extension::Trail(vec![
            "global".to_string(),
            "router".to_string(),
            "inner".to_string(),
            "route".to_string(),
            "handler".to_string()
        ]))
    );
    assert_eq!(p.finish(), Receiver::Middleware(2));
    assert_eq!(p.finish(), Receiver::Middleware(1));
    assert_eq!(p.finish(), Receiver::Middleware(0));
    assert_eq!(p.finish(), Receiver::Dispatcher);
}

#[test]
fn short_circuit_never_runs_handler() {
    let mut p = Pipeline::new(3);
    let mut handler_calls = 0;
    assert_eq!(p.proceed(), Stage::Middleware(0));
    assert_eq!(p.proceed(), Stage::Middleware(1));
    // the middleware at position 1 answers by itself
    assert_eq!(p.finish(), Receiver::Middleware(0));
    assert!(!p.can_proceed());
    assert_eq!(p.finish(), Receiver::Dispatcher);
    if p.can_proceed() {
        if p.proceed() == Stage::Handler {
            handler_calls += 1;
        }
    }
    assert_eq!(handler_calls, 0);
    assert!(!p.handler_ran());
}

#[test]
fn grandchild_router_inherits_all_levels() {
    let mut root = Router::new();
    let mut mid = Router::new();
    let mut leaf = Router::new();
    root.layer(10);
    mid.layer(20);
    leaf.layer(30);
    leaf.get("/x", 7);
    assert_eq!(leaf.route_count(), 1);
    mid.nest("/m", leaf);
    root.nest("/r/", mid);
    assert_eq!(root.route_count(), 0);
    let flat = root.flatten("/api");
    assert_eq!(flat.len(), 1);
    assert_eq!(flat[0].path, "/api/r/m/x");
    assert_eq!(flat[0].middlewares, vec![10, 20, 30]);
    let mut app = Foton::new();
    app.nest("/api", root);
    assert!(app.has_route("/api/r/m/x"));
    let built = build(&app);
    let mut req = request(Method::Get, "/api/r/m/x");
    match built.dispatch(&mut req, 0) {
        Dispatch::Run { handler, middlewares } => {
            assert_eq!(handler, 7);
            assert_eq!(middlewares, vec![10, 20, 30]);
        }
        other => panic!("unexpected {:?}", other),
    }
}

#[test]
fn body_over_limit_is_413() {
    let mut app = Foton::new();
    app.set_body_limit(10);
    app.post("/upload", 1);
    let built = build(&app);
    let mut req = request(Method::Post, "/upload");
    match built.dispatch(&mut req, 11) {
        Dispatch::Respond(res) => assert_eq!(res.status, 413),
        other => panic!("unexpected {:?}", other),
    }
    let mut req = request(Method::Post, "/upload");
    assert!(matches!(built.dispatch(&mut req, 10), Dispatch::Run { .. }));
}

#[test]
fn timeout_discards_late_result() {
    let mut race = HandlerRace::new();
    assert_eq!(race.on_event(RaceEvent::TimerFired), RaceOutcome::TimedOut);
    assert_eq!(race.on_event(RaceEvent::HandlerDone), RaceOutcome::Discard);
    let mut race = HandlerRace::new();
    assert_eq!(race.on_event(RaceEvent::HandlerDone), RaceOutcome::Deliver);
    assert_eq!(race.on_event(RaceEvent::TimerFired), RaceOutcome::Discard);
    let built = build(&Foton::new());
    let res = built.timeout_response(250);
    assert_eq!(res.status, 504);
    assert_eq!(body_text(&res), "504 Handler timeout after 250 ms");
}

#[test]
fn graceful_shutdown_drains_in_flight() {
    let mut l = Listener::new(Some(2));
    assert_eq!(l.on_accept(), Admission::Admit);
    let mut c = Connection::new();
    assert!(c.begin_request());
    assert!(c.begin_request());
    assert_eq!(c.in_flight, 2);
    l.on_shutdown();
    assert_eq!(l.on_accept(), Admission::Refuse);
    assert!(!c.on_shutdown());
    assert_eq!(c.state, ConnState::Draining);
    assert!(!c.begin_request());
    assert!(!l.may_return());
    assert_eq!(c.end_request(), AfterResponse::KeepServing);
    assert_eq!(c.state, ConnState::Draining);
    assert_eq!(c.end_request(), AfterResponse::Close);
    assert_eq!(c.state, ConnState::Closed);
    l.on_closed();
    assert!(l.may_return());
}

#[test]
fn connection_limit_refuses() {
    let mut l = Listener::new(Some(1));
    assert_eq!(l.on_accept(), Admission::Admit);
    assert_eq!(l.on_accept(), Admission::Refuse);
    l.on_closed();
    assert_eq!(l.on_accept(), Admission::Admit);
    let mut c = Connection::new();
    assert!(c.begin_request());
    assert_eq!(c.end_request(), AfterResponse::KeepServing);
    assert!(c.on_shutdown());
}

#[test]
fn concurrent_requests_on_one_connection() {
    let mut c = Connection::new();
    for _ in 0..3 {
        assert!(c.begin_request());
    }
    assert_eq!(c.in_flight, 3);
    assert_eq!(c.end_request(), AfterResponse::KeepServing);
    assert!(c.begin_request());
    assert_eq!(c.in_flight, 3);
    assert_eq!(c.state, ConnState::Serving);
}

#[test]
fn extensions_replace_and_remove() {
    let mut e = Extensions::new();
    assert_eq!(e.insert(Extension::Number(1)), None);
    assert_eq!(e.insert(Extension::Number(2)), Some(Extension::Number(1)));
    assert_eq!(e.get(ExtensionKind::Number), Some(&Extension::Number(2)));
    assert!(e.contains(ExtensionKind::Number));
    e.insert(Extension::Text("a".to_string()));
    assert_eq!(e.count(), 2);
    assert_eq!(e.remove(ExtensionKind::Number), Some(Extension::Number(2)));
    assert_eq!(e.get(ExtensionKind::Number), None);
    assert_eq!(e.remove(ExtensionKind::Number), None);
    if let Some(Extension::Text(t)) = e.get_mut(ExtensionKind::Text) {
        t.push('b');
    }
    assert_eq!(e.get(ExtensionKind::Text), Some(&Extension::Text("ab".to_string())));
    e.clear();
    assert!(!e.contains(ExtensionKind::Text));
    assert_eq!(e.count(), 0);
}

#[test]
fn default_error_handler_responses() {
    let res = DefaultErrorHandler.handle(Error::bad_request("oops"));
    assert_eq!(res.status, 400);
    assert_eq!(body_text(&res), "400 oops");
    assert_eq!(header(&res, "content-type"), Some("text/plain; charset=utf-8"));
    let res = DefaultErrorHandler.handle(Error::status(404));
    assert_eq!(res.status, 404);
    assert_eq!(body_text(&res), "");
    let res = DefaultErrorHandler.handle(Error::Json("bad".to_string()));
    assert_eq!(res.status, 400);
    assert_eq!(body_text(&res), "JSON error: bad");
    let res = DefaultErrorHandler.handle(Error::Io("disk".to_string()));
    assert_eq!(res.status, 500);
    assert_eq!(body_text(&res), "IO error: disk");
    let res = DefaultErrorHandler.handle(Error::Hyper("closed".to_string()));
    assert_eq!(body_text(&res), "HTTP error: closed");
    let res = DefaultErrorHandler.handle(Error::custom("boom"));
    assert_eq!(res.status, 500);
    assert_eq!(body_text(&res), "boom");
    let res = DefaultErrorHandler.handle(Error::Status(1000, Some("x".to_string())));
    assert_eq!(res.status, 500);
}

#[test]
fn json_error_handler_responses() {
    let res = JsonErrorHandler.handle(Error::unauthorized("no \"token\""));
    assert_eq!(res.status, 401);
    assert_eq!(body_text(&res), "{\"error\":\"no \\\"token\\\"\",\"status\":401}");
    assert_eq!(header(&res, "content-type"), Some("application/json"));
    let res = JsonErrorHandler.handle(Error::status(503));
    assert_eq!(body_text(&res), "{\"error\":\"Service Unavailable\",\"status\":503}");
    let res = JsonErrorHandler.handle(Error::status(418));
    assert_eq!(body_text(&res), "{\"error\":\"HTTP 418\",\"status\":418}");
}

#[test]
fn error_text_forms() {
    assert_eq!(Error::forbidden("nope").to_text(), "HTTP 403: nope");
    assert_eq!(Error::status(422).to_text(), "HTTP 422");
    assert_eq!(Error::Json("e".to_string()).to_text(), "JSON error: e");
    assert_eq!(Error::custom("plain").to_text(), "plain");
    assert_eq!(Error::unprocessable("u").to_text(), "HTTP 422: u");
    assert_eq!(Error::internal("i").to_text(), "HTTP 500: i");
    assert_eq!(Error::not_found("n").to_text(), "HTTP 404: n");
    assert_eq!(Error::method_not_allowed("m").to_text(), "HTTP 405: m");
    assert_eq!(Error::payload_too_large("p").to_text(), "HTTP 413: p");
}

#[test]
fn response_constructors() {
    let res = Res::text("hi");
    assert_eq!(res.status, 200);
    assert_eq!(body_text(&res), "hi");
    assert_eq!(header(&res, "content-type"), Some("text/plain; charset=utf-8"));
    let res = Res::html("<p>");
    assert_eq!(header(&res, "content-type"), Some("text/html; charset=utf-8"));
    assert_eq!(Res::status(204).status, 204);
    assert_eq!(Res::status(42).status, 500);
    assert_eq!(Res::status(1000).status, 500);
    assert_eq!(Res::new().status, 200);
    assert_eq!(Res::stream().body, ResBody::Streamed);
}

#[test]
fn response_json_outcomes() {
    let res = Res::json(Ok(b"{\"a\":1}".to_vec()));
    assert_eq!(res.status, 200);
    assert_eq!(body_text(&res), "{\"a\":1}");
    assert_eq!(header(&res, "content-type"), Some("application/json"));
    let res = Res::json(Err("boom".to_string()));
    assert_eq!(res.status, 500);
    assert_eq!(body_text(&res), "{\"error\": \"JSON serialization failed: boom\"}");
    let res = Res::builder().status(201).json(Ok(b"[]".to_vec()));
    assert_eq!(res.status, 201);
    let res = Res::builder().json(Err("x".to_string()));
    assert_eq!(res.status, 500);
    assert_eq!(body_text(&res), "Failed to serialize JSON");
}

#[test]
fn response_headers_validated_and_canonical() {
    let res = Res::new().header("X-Custom", "v1").header("x-custom", "v2");
    assert_eq!(res.headers, vec![("x-custom".to_string(), "v2".to_string())]);
    let res = Res::new().header("bad name", "v");
    assert!(res.headers.is_empty());
    let res = Res::new().header("x-ok", "line\nbreak");
    assert!(res.headers.is_empty());
    let res = Res::builder().header("Content-Type", "text/csv").text("a,b");
    assert_eq!(res.headers, vec![("content-type".to_string(), "text/csv".to_string())]);
    assert_eq!(res.header_value("content-type").map(|s| s.as_str()), Some("text/csv"));
    let res = Res::builder().status(202).body(vec![1, 2, 3]);
    assert_eq!(res.status, 202);
    assert_eq!(res.body, ResBody::Buffered(vec![1, 2, 3]));
}

#[test]
fn websocket_accept_key() {
    assert_eq!(websocket_accept("dGhlIHNhbXBsZSBub25jZQ=="), "s3pPLMBiTxaQ9kYGzzhZRbK+xOo=");
    let res = Res::websocket("dGhlIHNhbXBsZSBub25jZQ==");
    assert_eq!(res.status, 101);
    assert_eq!(header(&res, "sec-websocket-accept"), Some("s3pPLMBiTxaQ9kYGzzhZRbK+xOo="));
    assert_eq!(header(&res, "upgrade"), Some("websocket"));
    assert_eq!(res.body, ResBody::Upgrade);
}

#[test]
fn request_accessors() {
    let headers = vec![("content-type".to_string(), "application/json; charset=utf-8".to_string())];
    let mut req = Req::new(Method::Post, "/x".to_string(), Some("a=1".to_string()), headers);
    assert!(req.is_json());
    assert_eq!(req.header("Content-Type").map(|s| s.as_str()), Some("application/json; charset=utf-8"));
    assert_eq!(req.query().map(|s| s.as_str()), Some("a=1"));
    assert_eq!(req.path(), "/x");
    assert!(req.body().is_empty());
    assert!(req.body_bytes().is_err());
    req.set_body(vec![7, 8]);
    assert_eq!(req.body(), &[7, 8]);
    assert_eq!(req.body_bytes().unwrap(), vec![7, 8]);
    let plain = Req::new(Method::Get, "/".to_string(), None, vec![("content-type".to_string(), "text/plain".to_string())]);
    assert!(!plain.is_json());
}

#[test]
fn method_names() {
    assert_eq!(Method::from_name("PATCH"), Some(Method::Patch));
    assert_eq!(Method::from_name("patch"), None);
    assert_eq!(Method::Delete.as_string(), "DELETE");
}

#[test]
fn build_reports_bad_route() {
    let mut app = Foton::new();
    app.get("/ok", 1);
    app.get("/ok", 2);
    let err = app.build().err().unwrap();
    assert_eq!(err.route, 1);
    assert_eq!(err.error, RouteError::Duplicate);
    assert_eq!(app.route_count(), 2);
}

#[test]
fn config_applies_only_given_limits() {
    let mut app = Foton::new();
    app.set_body_limit(5);
    app.set_max_connections(3);
    let mut c = foton::app::ServerConfig::new();
    c.http2 = true;
    c.handler_timeout_ms = Some(100);
    app.apply_config(c);
    let got = app.config();
    assert_eq!(got.body_limit, Some(5));
    assert_eq!(got.max_connections, Some(3));
    assert_eq!(got.handler_timeout_ms, Some(100));
    assert!(got.http2);
}

#[test]
fn root_path_and_empty_path() {
    let mut t = RouteTable::new();
    t.register(Method::Get, "/", 1, vec![]).unwrap();
    for path in ["/", ""] {
        match t.resolve(Method::Get, path) {
            Resolution::Found { handler, params, .. } => {
                assert_eq!(handler, 1);
                assert!(params.is_empty());
            }
            other => panic!("unexpected {:?}", other),
        }
    }
    assert!(matches!(t.resolve(Method::Get, "/a"), Resolution::NotFound));
}

#[test]
fn body_limit_boundary() {
    let mut app = Foton::new();
    app.set_body_limit(0);
    let built = build(&app);
    assert!(built.body_allowed(0));
    assert!(!built.body_allowed(1));
    let built = build(&Foton::new());
    assert!(built.body_allowed(usize::MAX));
}

#[test]
fn json_error_format_for_not_found() {
    let mut app = Foton::new();
    app.set_error_handler(ErrorFormat::Json);
    let built = build(&app);
    let mut req = request(Method::Get, "/missing");
    match built.dispatch(&mut req, 0) {
        Dispatch::Respond(res) => {
            assert_eq!(res.status, 404);
            assert_eq!(body_text(&res), "{\"error\":\"Route not found\",\"status\":404}");
        }
        other => panic!("unexpected {:?}", other),
    }
}

#[test]
fn nested_empty_path_drops_trailing_slash() {
    let mut r = Router::new();
    r.get("", 4);
    let flat = r.flatten("/a/");
    assert_eq!(flat[0].path, "/a");
    let flat = r.flatten("/a");
    assert_eq!(flat[0].path, "/a");
}

#[test]
fn built_app_prefers_literal_route() {
    let mut app = Foton::new();
    app.get("/users/:id", 2);
    app.get("/users/me", 1);
    let built = build(&app);
    let mut req = request(Method::Get, "/users/me");
    match built.dispatch(&mut req, 0) {
        Dispatch::Run { handler, .. } => assert_eq!(handler, 1),
        other => panic!("unexpected {:?}", other),
    }
    assert!(req.params().is_empty());
    let mut req = request(Method::Get, "/users/7");
    match built.dispatch(&mut req, 0) {
        Dispatch::Run { handler, .. } => assert_eq!(handler, 2),
        other => panic!("unexpected {:?}", other),
    }
    assert_eq!(req.params(), &vec![("id".to_string(), "7".to_string())]);
    assert_eq!(built.table.len(), 2);
}

#[test]
fn extension_method_gets_404_or_405() {
    let mut app = Foton::new();
    app.get("/users/:id", 1);
    app.post("/users/:id", 2);
    let built = build(&app);
    let res = built.refuse_method("PURGE", "/users/3");
    assert_eq!(res.status, 405);
    assert_eq!(header(&res, "allow"), Some("GET, POST"));
    assert_eq!(body_text(&res), "405 Method PURGE not allowed. Allowed methods: GET, POST");
    assert_eq!(built.refuse_method("PURGE", "/none").status, 404);
}

#[test]
fn custom_error_format_reaches_extensions() {
    let mut app = Foton::new();
    app.set_error_handler(ErrorFormat::Custom);
    app.get("/x", 1);
    let built = build(&app);
    let mut req = request(Method::Get, "/x");
    assert!(matches!(built.dispatch(&mut req, 0), Dispatch::Run { .. }));
    assert_eq!(
        req.extensions().get(ExtensionKind::ErrorFormat),
        Some(&Extension::ErrorFormat(ErrorFormat::Custom))
    );
    let mut req = request(Method::Get, "/y");
    match built.dispatch(&mut req, 0) {
        Dispatch::Respond(res) => assert_eq!(body_text(&res), "404 Route not found"),
        other => panic!("unexpected {:?}", other),
    }
}
