use observability::custom_error::CustomError;
use observability::exposition::render_scrape_response;
use observability::handler::handle_test;
use observability::handler::LogLevel;
use observability::handler::TraceContext;
use observability::json::render_json_string;
use observability::metrics::meter;
use observability::metrics::MetricsRegistry;
use observability::text::u64_to_dec;

#[test]
fn demo_route_success() {
    let mut reg = MetricsRegistry::new();
    let cx = TraceContext { trace_id: 1, span_id: 2 };
    let (event, resp) = handle_test(&mut reg, &cx);
    assert_eq!(resp.status, 200);
    assert_eq!(resp.body, "\"test ok\"");
    assert_eq!(resp.content_type, "application/json");
    assert!(matches!(event.level, LogLevel::Info));
    assert_eq!(event.field, "reason");
    assert_eq!(event.value, "Algu\u{e9}m acessou a rota de teste");
    assert_eq!(event.context, cx);
}

#[test]
fn request_counter_counts_each_invocation() {
    let mut reg = MetricsRegistry::new();
    let cx = TraceContext { trace_id: 0, span_id: 0 };
    let m = meter("observability_with_rust");
    let mut last: u64 = 0;
    for k in 1..=5u64 {
        handle_test(&mut reg, &cx);
        let h = reg.counter(&m, "app.request.count", "Contador de requisi\u{e7}\u{f5}es");
        let v = reg.value(h);
        assert_eq!(v, k);
        assert!(v >= last);
        last = v;
    }
}

#[test]
fn repeated_registration_returns_same_series() {
    let mut reg = MetricsRegistry::new();
    let m = meter("observability_with_rust");
    let h1 = reg.counter(&m, "app.request.count", "d");
    let h2 = reg.counter(&m, "app.request.count", "d");
    assert_eq!(h1, h2);
    assert_eq!(reg.gather().families.len(), 1);
    reg.add(h1, 3);
    assert_eq!(reg.value(h2), 3);
}

#[test]
fn thousand_increments_lose_nothing() {
    let mut reg = MetricsRegistry::new();
    let m = meter("observability_with_rust");
    let h = reg.counter(&m, "app.request.count", "d");
    let mut i: u64 = 0;
    while i < 1000 {
        reg.add(h, 1);
        i += 1;
    }
    assert_eq!(reg.value(h), 1000);
}

#[test]
fn scrape_reports_counter_value_without_main_traffic() {
    let mut reg = MetricsRegistry::new();
    let empty_scrape = render_scrape_response(&reg);
    assert_eq!(empty_scrape.status, 200);
    assert_eq!(empty_scrape.body, "");
    let m = meter("observability_with_rust");
    let h = reg.counter(&m, "app.request.count", "Contador de requisi\u{e7}\u{f5}es");
    reg.add(h, 7);
    let r = render_scrape_response(&reg);
    assert_eq!(r.status, 200);
    assert_eq!(r.content_type, "text/plain; version=0.0.4");
    assert!(r.body.lines().any(|l| l == "app_request_count 7"));
    assert_eq!(
        r.body,
        "# HELP app_request_count Contador de requisi\u{e7}\u{f5}es\n# TYPE app_request_count counter\napp_request_count 7\n"
    );
}

#[test]
fn error_maps_to_status_and_body() {
    let e = CustomError {
        message: "not found".to_string(),
        name: "NotFoundError".to_string(),
        status: 404,
    };
    let r = e.into_response();
    assert_eq!(r.status, 404);
    assert_eq!(r.body, "{\"name\":\"NotFoundError\",\"message\":\"not found\"}");
    assert!(!r.body.contains("404"));
    assert!(!r.body.contains("status"));
    assert_eq!(r.content_type, "application/json");
}

#[test]
fn error_body_escapes_contents() {
    let e = CustomError {
        message: "line\nbreak \"q\"".to_string(),
        name: "E\\".to_string(),
        status: 500,
    };
    let r = e.into_response();
    assert_eq!(r.status, 500);
    assert_eq!(r.body, "{\"name\":\"E\\\\\",\"message\":\"line\\nbreak \\\"q\\\"\"}");
}

#[test]
fn error_display_message() {
    let e = CustomError {
        message: "not found".to_string(),
        name: "NotFoundError".to_string(),
        status: 404,
    };
    assert_eq!(e.display_message(), "not found");
}

#[test]
fn json_string_escaping_exact() {
    assert_eq!(render_json_string("a\"b\\c\nd"), "\"a\\\"b\\\\c\\nd\"");
    assert_eq!(render_json_string("\r\t\u{8}\u{c}"), "\"\\r\\t\\b\\f\"");
    assert_eq!(render_json_string("\u{1}\u{1f}"), "\"\\u0001\\u001f\"");
    assert_eq!(render_json_string(""), "\"\"");
    assert_eq!(render_json_string("caf\u{e9}"), "\"caf\u{e9}\"");
}

#[test]
fn decimal_rendering_exact() {
    assert_eq!(u64_to_dec(0), "0");
    assert_eq!(u64_to_dec(9), "9");
    assert_eq!(u64_to_dec(10), "10");
    assert_eq!(u64_to_dec(42), "42");
    assert_eq!(u64_to_dec(u64::MAX), "18446744073709551615");
}

#[test]
fn counter_saturates_and_never_decreases() {
    let mut reg = MetricsRegistry::new();
    let m = meter("observability_with_rust");
    let h = reg.counter(&m, "near.limit", "d");
    reg.add(h, u64::MAX - 1);
    assert_eq!(reg.value(h), u64::MAX - 1);
    reg.add(h, 5);
    assert_eq!(reg.value(h), u64::MAX);
    let before = reg.value(h);
    reg.add(h, 1);
    assert!(reg.value(h) >= before);
    assert_eq!(reg.value(h), u64::MAX);
}

#[test]
fn metric_names_sanitized_in_exposition() {
    let mut reg = MetricsRegistry::new();
    let m = meter("observability_with_rust");
    let h = reg.counter(&m, "weird name-1!", "d");
    reg.add(h, 2);
    let r = render_scrape_response(&reg);
    assert_eq!(
        r.body,
        "# HELP weird_name_1_ d\n# TYPE weird_name_1_ counter\nweird_name_1_ 2\n"
    );
}

#[test]
fn help_text_escaped_in_exposition() {
    let mut reg = MetricsRegistry::new();
    let m = meter("observability_with_rust");
    reg.counter(&m, "x", "a\nb\\c");
    let r = render_scrape_response(&reg);
    assert_eq!(r.body, "# HELP x a\\nb\\\\c\n# TYPE x counter\nx 0\n");
}

#[test]
fn snapshot_is_point_in_time() {
    let mut reg = MetricsRegistry::new();
    let m = meter("observability_with_rust");
    let h = reg.counter(&m, "x", "d");
    reg.add(h, 1);
    let snap = reg.gather();
    reg.add(h, 1);
    assert_eq!(snap.families[0].value, 1);
    assert_eq!(reg.value(h), 2);
}

#[test]
fn families_appear_in_registration_order() {
    let mut reg = MetricsRegistry::new();
    let m = meter("observability_with_rust");
    let ha = reg.counter(&m, "alpha", "first");
    let hb = reg.counter(&m, "beta", "second");
    reg.add(ha, 1);
    reg.add(hb, 2);
    let r = render_scrape_response(&reg);
    assert_eq!(
        r.body,
        "# HELP alpha first\n# TYPE alpha counter\nalpha 1\n# HELP beta second\n# TYPE beta counter\nbeta 2\n"
    );
    assert_ne!(ha, hb);
}
