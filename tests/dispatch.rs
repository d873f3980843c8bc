use turbo_server::admission::AdmissionController;
use turbo_server::client::extract_client_ip;
use turbo_server::key::{create_route_key_fast, hash_route_key, select_worker};
use turbo_server::ratelimit::{configure_rate_limiting, RateLimitConfig, RateLimiter};
use turbo_server::response::{classify_error, truncate_message};
use turbo_server::router::RouteTable;
use turbo_server::server::{
    deferred_worker_count, finish_request, worker_threads, HandlerOutcome, Plan, TurboServer,
};

fn header<'a>(headers: &'a [(String, String)], name: &str) -> Option<&'a str> {
    headers.iter().find(|(n, _)| n == name).map(|(_, v)| v.as_str())
}

fn new_server() -> TurboServer<&'static str> {
    TurboServer::new(None, None, Some(4))
}

#[test]
fn ping_direct_handler_returns_pong() {
    let mut server = new_server();
    server.add_route("GET", "/ping", "ping", false);
    let plan = server.begin_request("GET", "/ping", "10.0.0.1", 0, 8);
    let key = match plan {
        Plan::Direct { route_key } => route_key,
        _ => panic!("expected a direct plan"),
    };
    assert_eq!(key, "GET /ping");
    let meta = server.handler(&key).unwrap();
    assert_eq!(meta.handler, "ping");
    let resp = finish_request("GET", "/ping", HandlerOutcome::Success("\"pong\"".to_string()), 0);
    assert_eq!(resp.status, 200);
    assert_eq!(resp.body, "\"pong\"");
    assert_eq!(header(&resp.headers, "content-type"), Some("application/json"));
    assert_eq!(header(&resp.headers, "content-length"), Some("6"));
}

#[test]
fn missing_route_is_not_found() {
    let mut server = new_server();
    let plan = server.begin_request("GET", "/missing", "10.0.0.1", 0, 8);
    let resp = match plan {
        Plan::Respond(r) => r,
        _ => panic!("expected a response"),
    };
    assert_eq!(resp.status, 404);
    assert!(resp.body.contains("\"error\": \"Not Found\""));
    assert!(resp.body.contains("No handler registered for GET /missing"));
    assert_eq!(header(&resp.headers, "content-type"), Some("application/json"));
}

#[test]
fn parameterized_route_gives_diagnostic_payload() {
    let mut server = new_server();
    server.add_route("GET", "/users/{id}", "user", false);
    let plan = server.begin_request("GET", "/users/42", "10.0.0.1", 0, 8);
    let resp = match plan {
        Plan::Respond(r) => r,
        _ => panic!("expected a response"),
    };
    assert_eq!(resp.status, 200);
    assert!(resp.body.contains("\"params\": {\"id\": \"42\"}"));
    assert!(resp.body.contains("\"route_key\": \"GET /users/42\""));
    assert!(resp.body.contains("Parameterized route found"));
}

#[test]
fn rate_limit_of_two_rejects_third_request() {
    let mut server = new_server();
    server.add_route("GET", "/ping", "ping", false);
    server.set_rate_limit(configure_rate_limiting(true, Some(2)));
    let mut statuses = Vec::new();
    for _ in 0..3 {
        match server.begin_request("GET", "/ping", "10.0.0.1", 5, 8) {
            Plan::Respond(r) => statuses.push(r.status),
            _ => statuses.push(200),
        }
    }
    assert_eq!(statuses, vec![200, 200, 429]);
}

#[test]
fn rate_limited_response_carries_retry_hint() {
    let mut server = new_server();
    server.set_rate_limit(configure_rate_limiting(true, Some(0)));
    let resp = match server.begin_request("GET", "/x", "c", 0, 8) {
        Plan::Respond(r) => r,
        _ => panic!("expected a response"),
    };
    assert_eq!(resp.status, 429);
    assert_eq!(header(&resp.headers, "retry-after"), Some("60"));
    assert!(resp.body.contains("RateLimitExceeded"));
}

#[test]
fn closed_worker_channel_is_unavailable() {
    let mut server = new_server();
    server.add_route("POST", "/jobs", "job", true);
    let plan = server.begin_request("post", "/jobs", "c", 0, 8);
    let worker = match plan {
        Plan::Deferred { route_key, worker } => {
            assert_eq!(route_key, "POST /jobs");
            worker
        }
        _ => panic!("expected a deferred plan"),
    };
    assert_eq!(worker, select_worker("POST /jobs", 8));
    let resp = finish_request("POST", "/jobs", HandlerOutcome::Unavailable, 0);
    assert_eq!(resp.status, 503);
    assert!(resp.body.contains("\"error\": \"Service Unavailable\""));
}

#[test]
fn handler_errors_are_classified() {
    let cases = [
        ("validation failed", 400, "ValidationError"),
        ("request timeout", 408, "TimeoutError"),
        ("user not found", 404, "NotFoundError"),
        ("boom", 500, "InternalServerError"),
    ];
    for (text, status, kind) in cases {
        let (s, k) = classify_error(text);
        assert_eq!(s, status);
        assert_eq!(k, kind);
        let resp = finish_request("GET", "/e", HandlerOutcome::Failure(text.to_string()), 1700000000);
        assert_eq!(resp.status, status);
        assert_eq!(header(&resp.headers, "x-error-recovery"), Some("attempted"));
        assert_eq!(
            resp.body,
            format!(
                "{{\"error\": \"{}\", \"message\": \"Request failed: {}\", \"method\": \"GET\", \"path\": \"/e\", \"timestamp\": 1700000000}}",
                kind, text
            )
        );
    }
}

#[test]
fn error_message_is_truncated_to_200_chars() {
    let long = "x".repeat(250);
    assert_eq!(truncate_message(&long).chars().count(), 200);
    assert_eq!(truncate_message("short"), "short");
}

#[test]
fn head_request_gets_empty_body_and_full_length() {
    let resp = finish_request("head", "/ping", HandlerOutcome::Success("{\"a\": 1}".to_string()), 0);
    assert_eq!(resp.status, 200);
    assert_eq!(resp.body, "");
    assert_eq!(header(&resp.headers, "content-length"), Some("8"));
}

#[test]
fn route_key_uppercases_method() {
    assert_eq!(create_route_key_fast("get", "/a/b"), "GET /a/b");
    assert_eq!(create_route_key_fast("Post", "/"), "POST /");
}

#[test]
fn fnv1a_known_values() {
    assert_eq!(hash_route_key("") as u64, 0xcbf29ce484222325);
    assert_eq!(hash_route_key("a") as u64, 0xaf63dc4c8601ec8c);
}

#[test]
fn worker_selection_is_stable() {
    let a = select_worker("GET /users/{id}", 8);
    let b = select_worker("GET /users/{id}", 8);
    assert_eq!(a, b);
    assert!(a < 8);
    assert_eq!(a, (hash_route_key("GET /users/{id}") % 8));
}

#[test]
fn admission_is_bounded() {
    let mut ac = AdmissionController::new(8);
    assert_eq!(ac.max_connections(), 440);
    let mut permits = Vec::new();
    for _ in 0..440 {
        permits.push(ac.try_admit().expect("permit"));
    }
    assert!(ac.try_admit().is_none());
    ac.release(permits.pop().unwrap());
    assert!(ac.try_admit().is_some());
    assert!(ac.try_admit().is_none());
}

#[test]
fn rate_window_resets_after_sixty_seconds() {
    let mut rl = RateLimiter::new();
    assert!(rl.check_rate_limit("c", 100, 2));
    assert!(rl.check_rate_limit("c", 130, 2));
    assert!(!rl.check_rate_limit("c", 160, 2));
    assert!(rl.check_rate_limit("d", 160, 2));
    assert!(rl.check_rate_limit("c", 161, 2));
}

#[test]
fn rate_limit_defaults() {
    let d = RateLimitConfig::default();
    assert!(!d.enabled);
    assert_eq!(d.requests_per_minute, 1_000_000);
    let c = configure_rate_limiting(true, None);
    assert!(c.enabled);
    assert_eq!(c.requests_per_minute, 1_000_000);
}

#[test]
fn literal_segment_beats_parameter() {
    let mut rt = RouteTable::new();
    rt.register("GET", "/a/{x}/c");
    rt.register("GET", "/a/b/{y}");
    let m = rt.resolve("GET", "/a/b/c").expect("match");
    assert_eq!(m.key, "GET /a/b/{y}");
    assert_eq!(m.params, vec![("y".to_string(), "c".to_string())]);
    let m2 = rt.resolve("GET", "/a/z/c").expect("match");
    assert_eq!(m2.key, "GET /a/{x}/c");
    assert_eq!(m2.params, vec![("x".to_string(), "z".to_string())]);
    assert!(rt.resolve("POST", "/a/b/c").is_none());
}

#[test]
fn exact_route_resolves_to_its_key() {
    let mut rt = RouteTable::new();
    rt.register("get", "/users/{id}");
    let m = rt.resolve("GET", "/users/{id}").expect("match");
    assert_eq!(m.key, "GET /users/{id}");
    assert!(m.params.is_empty());
    let p = rt.resolve("GET", "/users/7").expect("match");
    assert_eq!(p.params, vec![("id".to_string(), "7".to_string())]);
    assert!(rt.resolve("GET", "/users/7/x").is_none());
}

#[test]
fn registering_twice_is_idempotent() {
    let mut once = new_server();
    once.add_route("GET", "/p", "h", false);
    let mut twice = new_server();
    twice.add_route("GET", "/p", "h", false);
    twice.add_route("GET", "/p", "h", false);
    for path in ["/p", "/q"] {
        let a = once.begin_request("GET", path, "c", 0, 8);
        let b = twice.begin_request("GET", path, "c", 0, 8);
        match (a, b) {
            (Plan::Direct { route_key: x }, Plan::Direct { route_key: y }) => assert_eq!(x, y),
            (Plan::Respond(x), Plan::Respond(y)) => {
                assert_eq!(x.status, y.status);
                assert_eq!(x.body, y.body);
            }
            _ => panic!("plans differ"),
        }
    }
}

#[test]
fn client_identity_from_headers() {
    assert_eq!(extract_client_ip(Some(" 1.2.3.4 , 5.6.7.8"), Some("9.9.9.9")), "1.2.3.4");
    assert_eq!(extract_client_ip(None, Some("9.9.9.9")), "9.9.9.9");
    assert_eq!(extract_client_ip(None, None), "127.0.0.1");
}

#[test]
fn worker_counts_follow_cores() {
    assert_eq!(worker_threads(Some(2)), 8);
    assert_eq!(worker_threads(Some(5)), 15);
    assert_eq!(worker_threads(Some(64)), 24);
    assert_eq!(worker_threads(None), 12);
    assert_eq!(deferred_worker_count(Some(4)), 8);
    assert_eq!(deferred_worker_count(Some(32)), 32);
    assert_eq!(deferred_worker_count(None), 8);
}

#[test]
fn info_names_address() {
    let server: TurboServer<u8> = TurboServer::new(Some("0.0.0.0".to_string()), Some(9000), Some(4));
    let info = server.info();
    assert!(info.starts_with("TurboServer running on 0.0.0.0:9000"));
    assert!(info.contains("Worker threads: 12"));
}

#[test]
fn captures_follow_template_order() {
    let mut rt = RouteTable::new();
    rt.register("GET", "/org/{org}/repo/{repo}");
    let m = rt.resolve("GET", "/org/acme/repo/tools").expect("match");
    assert_eq!(
        m.params,
        vec![("org".to_string(), "acme".to_string()), ("repo".to_string(), "tools".to_string())]
    );
}

#[test]
fn plan_route_skips_rate_limiting() {
    let mut server = new_server();
    server.add_route("GET", "/ping", "ping", false);
    server.set_rate_limit(configure_rate_limiting(true, Some(0)));
    match server.plan_route("GET", "/ping", 8) {
        Plan::Direct { route_key } => assert_eq!(route_key, "GET /ping"),
        _ => panic!("expected a direct plan"),
    }
}
