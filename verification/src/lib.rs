//! Observability instrumentation core: a metrics registry of monotonic
//! counters, the text exposition format served on the scrape endpoint,
//! the error-to-response mapping, and the demo request handler.
pub mod custom_error;
pub mod exposition;
pub mod handler;
pub mod http;
pub mod json;
pub mod metrics;
pub mod text;
