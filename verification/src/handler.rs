//! The request handler layer: the demo route, which emits one trace event
//! and bumps the request counter on every successful invocation.
use vstd::prelude::*;
use crate::http::HttpResponse;
use crate::json::json_string;
use crate::json::lemma_escape_plain;
use crate::json::render_json_string;
use crate::metrics::Meter;
use crate::metrics::MetricsRegistry;
use crate::metrics::bump_spec;
use crate::metrics::meter;

verus! {

/// The severity of a trace event.
#[derive(Clone, Copy, PartialEq, Eq, Structural, Debug)]
pub enum LogLevel {
    Trace,
    Debug,
    Info,
    Warn,
    Error,
}

/// The identifier correlating the spans of one logical operation across
/// process and network boundaries. It lives for one request and is never
/// shared across requests.
#[derive(Clone, Copy, PartialEq, Eq, Structural, Debug)]
pub struct TraceContext {
    pub trace_id: u128,
    pub span_id: u64,
}

/// A named, leveled record attached to a trace context: one field name
/// and its value, immutable once emitted.
pub struct TraceEvent {
    pub context: TraceContext,
    pub level: LogLevel,
    pub field: String,
    pub value: String,
}

/// The name under which instruments of this service are registered.
pub fn service_meter() -> (m: Meter)
    ensures
        m.name@ == "observability_with_rust"@,
{
    meter("observability_with_rust")
}

/// The demo route: emits exactly one informational trace event carrying
/// the fixed reason string, increments the request counter by exactly
/// one, and answers 200 with the JSON string `"test ok"` as its body.
pub fn handle_test(registry: &mut MetricsRegistry, context: &TraceContext) -> (r: (
    TraceEvent,
    HttpResponse,
))
    requires
        old(registry).wf(),
    ensures
        final(registry).wf(),
        final(registry)@ == bump_spec(
            old(registry)@,
            "app.request.count"@,
            "Contador de requisi\u{e7}\u{f5}es"@,
        ),
        r.0.context == *context,
        r.0.level is Info,
        r.0.field@ == "reason"@,
        r.0.value@ == "Algu\u{e9}m acessou a rota de teste"@,
        r.1.status == 200,
        r.1.content_type@ == "application/json"@,
        r.1.body@ == json_string("test ok"@),
        r.1.body@ == "\"test ok\""@,
{
    let event = TraceEvent {
        context: *context,
        level: LogLevel::Info,
        field: "reason".to_owned(),
        value: "Algu\u{e9}m acessou a rota de teste".to_owned(),
    };
    let m = service_meter();
    let h = registry.counter(&m, "app.request.count", "Contador de requisi\u{e7}\u{f5}es");
    registry.add(h, 1);
    let body = render_json_string("test ok");
    proof {
        reveal_strlit("test ok");
        reveal_strlit("\"test ok\"");
        lemma_escape_plain("test ok"@);
        assert(json_string("test ok"@) =~= "\"test ok\""@);
    }
    let response = HttpResponse {
        status: 200,
        content_type: "application/json".to_owned(),
        body,
    };
    (event, response)
}

} // verus!
