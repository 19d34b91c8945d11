use crate::request::headers_view;
use vstd::prelude::*;

verus! {

/// A response as the host framework will send it.
pub struct Response {
    pub status: u16,
    pub headers: Vec<(String, String)>,
    pub body: String,
}

/// What the HTML renderer is given: the page object in its wire form.
pub struct HtmlResponseContext {
    pub data_page: String,
}

/// A 200 response that carries `body` as protocol JSON.
pub open spec fn is_json_response(r: Response, body: Seq<char>) -> bool {
    &&& r.status == 200
    &&& headers_view(r.headers@) == seq![
        ("Content-Type"@, "application/json"@),
        (crate::X_INERTIA@, "true"@),
    ]
    &&& r.body@ == body
}

/// A 409 response that sends the client to `location` after a full reload.
pub open spec fn is_conflict_response(r: Response, location: Seq<char>) -> bool {
    &&& r.status == 409
    &&& headers_view(r.headers@) == seq![(crate::X_INERTIA_LOCATION@, location)]
    &&& r.body@.len() == 0
}

/// A 500 response that says nothing of its cause.
pub open spec fn is_server_error(r: Response) -> bool {
    &&& r.status == 500
    &&& r.headers@.len() == 0
    &&& r.body@.len() == 0
}

/// The response that carries a page object's wire form to a protocol client.
pub fn json_response(body: String) -> (r: Response)
    ensures
        is_json_response(r, body@),
{
    let mut headers: Vec<(String, String)> = Vec::new();
    headers.push(("Content-Type".to_owned(), "application/json".to_owned()));
    headers.push((crate::X_INERTIA.to_owned(), "true".to_owned()));
    let r = Response { status: 200, headers, body };
    assert(headers_view(r.headers@) =~= seq![
        ("Content-Type"@, "application/json"@),
        (crate::X_INERTIA@, "true"@),
    ]);
    r
}

/// The version-conflict response for a request that was made for `location`.
pub fn version_conflict(location: String) -> (r: Response)
    ensures
        is_conflict_response(r, location@),
{
    let mut headers: Vec<(String, String)> = Vec::new();
    headers.push((crate::X_INERTIA_LOCATION.to_owned(), location));
    let r = Response { status: 409, headers, body: String::new() };
    assert(headers_view(r.headers@) =~= seq![(crate::X_INERTIA_LOCATION@, r.headers@[0].1@)]);
    r
}

/// The response sent when the page cannot be put in its wire form.
pub fn server_error() -> (r: Response)
    ensures
        is_server_error(r),
{
    Response { status: 500, headers: Vec::new(), body: String::new() }
}

} // verus!
