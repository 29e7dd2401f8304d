//! The value a handler hands to the transport layer: everything needed to
//! send one response.
use vstd::prelude::*;

verus! {

/// One outgoing response: the status line, the content type, and the body
/// text.
pub struct HttpResponse {
    pub status: u16,
    pub content_type: String,
    pub body: String,
}

} // verus!
