//! The uniform error value raised by handlers, and its mapping to a
//! transport response.
use vstd::prelude::*;
use crate::http::HttpResponse;
use crate::json::json_error_body;
use crate::json::render_error_body;

verus! {

/// A structured handler error: a human-readable message, a
/// machine-readable error-kind name, and the HTTP status code the caller
/// should see.
pub struct CustomError {
    pub message: String,
    pub name: String,
    pub status: u16,
}

impl CustomError {
    /// The text a human-facing formatter shows for this error: its
    /// message, nothing more.
    pub fn display_message(&self) -> (s: String)
        ensures
            s@ == self.message@,
    {
        self.message.clone()
    }

    /// Maps the error to its transport response: the status line is the
    /// error's own status, and the body holds exactly the `name` and
    /// `message` fields — the status code never appears in the body.
    pub fn into_response(self) -> (r: HttpResponse)
        ensures
            r.status == self.status,
            r.content_type@ == "application/json"@,
            r.body@ == json_error_body(self.name@, self.message@),
    {
        let body = render_error_body(self.name.as_str(), self.message.as_str());
        HttpResponse { status: self.status, content_type: "application/json".to_owned(), body }
    }
}

} // verus!
