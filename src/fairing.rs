use crate::page::{opt_view, page_url, Inertia, PageObject};
use crate::request::RequestInfo;
use crate::response::{
    is_conflict_response, is_json_response, json_response, server_error,
    version_conflict, HtmlResponseContext, Response,
};
use crate::wire::{encode_page, page_json};
use vstd::prelude::*;

verus! {

/// serde_json's JSON value, carried through as the props of a response.
#[verifier::external_type_specification]
#[verifier::external_body]
pub struct ExJsonValue(serde_json::Value);

/// serde_json's serialisation error.
#[verifier::external_type_specification]
#[verifier::external_body]
pub struct ExJsonError(serde_json::Error);

/// Relies on serde_json::to_string: the JSON text of a value. On a `Value` it
/// does not fail: the text goes into a `Vec`, which takes every write, object
/// keys are strings, and a float that is not finite is written as `null`.
#[verifier::external_body]
fn props_to_json(props: &serde_json::Value) -> (r: Result<String, serde_json::Error>)
    ensures
        r is Ok,
{
    serde_json::to_string(props)
}

/// What the version guard decides for one request.
pub enum GuardDecision {
    /// The request goes on to its handler.
    Proceed,
    /// The request is answered by the version-conflict response for this location.
    Divert(String),
}

/// The server-wide protocol state: the current asset version and the
/// renderer of the HTML shell for requests that are not protocol requests.
pub struct VersionFairing<F> {
    version: String,
    html_response: F,
}

/// Whether the guard diverts `request` while the asset version is `current`:
/// a protocol GET whose client reported another version.
pub open spec fn diverts(request: RequestInfo, current: Seq<char>) -> bool {
    &&& request.method@ == "GET"@
    &&& request.is_inertia()
    &&& match request.client_version() {
        Some(v) => v != current,
        None => false,
    }
}

/// Two protocol GET requests that both report the current asset version both
/// go on to their handlers; and of two requests that differ only in the
/// reported version, one that reports the current version goes on while one
/// that reports another is diverted.
pub proof fn lemma_version_guard(a: RequestInfo, b: RequestInfo, current: Seq<char>)
    requires
        a.method@ == "GET"@,
        b.method@ == "GET"@,
        a.is_inertia(),
        b.is_inertia(),
        a.client_version() == Some(current),
    ensures
        b.client_version() == Some(current) ==> !diverts(a, current) && !diverts(b, current),
        (b.client_version() is Some && b.client_version() != Some(current)) ==> !diverts(a, current)
            && diverts(b, current),
{
}

impl<F: Fn(&RequestInfo, &HtmlResponseContext) -> Response> VersionFairing<F> {
    /// The asset version this server holds as current.
    pub closed spec fn current_version(&self) -> Seq<char> {
        self.version@
    }

    /// The renderer of the HTML shell.
    pub closed spec fn renderer(&self) -> F {
        self.html_response
    }

    /// The protocol state for asset version `version`, with the given renderer
    /// of the HTML shell, which must accept every request and context.
    pub fn new(version: &str, html_response: F) -> (r: Self)
        requires
            forall|q: &RequestInfo, c: &HtmlResponseContext| html_response.requires((q, c)),
        ensures
            r.current_version() == version@,
            r.renderer() == html_response,
            r.wf(),
    {
        VersionFairing { version: version.to_owned(), html_response }
    }

    /// Whether this guard holds its renderer to accept every input.
    pub closed spec fn wf(&self) -> bool {
        forall|q: &RequestInfo, c: &HtmlResponseContext| self.html_response.requires((q, c))
    }

    /// Decides whether `request` is diverted to the version-conflict response,
    /// and for which location.
    pub fn check(&self, request: &RequestInfo) -> (d: GuardDecision)
        ensures
            diverts(*request, self.current_version()) <==> d is Divert,
            d matches GuardDecision::Divert(loc) ==> loc@ == request.path@,
    {
        let get = "GET".to_owned();
        if request.method == get && request.inertia_request() {
            match request.inertia_version() {
                Some(v) => {
                    if v != self.version {
                        return GuardDecision::Divert(request.path.clone());
                    }
                },
                None => {},
            }
        }
        GuardDecision::Proceed
    }

    /// Runs the guard on `request`: the version-conflict response for its
    /// path when it is diverted, else `None` and the request goes on.
    pub fn on_request(&self, request: &RequestInfo) -> (r: Option<Response>)
        ensures
            diverts(*request, self.current_version()) <==> r is Some,
            r matches Some(resp) ==> is_conflict_response(resp, request.path@),
    {
        match self.check(request) {
            GuardDecision::Divert(location) => Some(version_conflict(location)),
            GuardDecision::Proceed => None,
        }
    }

    /// Whether `r` answers `request` with the page whose wire form is `page`:
    /// as JSON to a protocol request, else as what the renderer made of it.
    pub open spec fn answers(&self, request: &RequestInfo, page: Seq<char>, r: Response) -> bool {
        &&& request.is_inertia() ==> is_json_response(r, page)
        &&& !request.is_inertia() ==> exists|c: HtmlResponseContext|
            c.data_page@ == page && #[trigger] self.renderer().ensures((request, &c), r)
    }

    /// Answers `request` with `page`, whose props are JSON text: as JSON when it
    /// is a protocol request, else through the HTML renderer, called once.
    pub fn negotiate(&self, request: &RequestInfo, page: &PageObject<String>) -> (r: Response)
        requires
            self.wf(),
        ensures
            self.answers(
                request,
                page_json(page.component@, page.url@, opt_view(page.version), page.props@),
                r,
            ),
    {
        let data = encode_page(page);
        if request.inertia_request() {
            json_response(data)
        } else {
            let ctx = HtmlResponseContext { data_page: data };
            let r = (self.html_response)(request, &ctx);
            assert(self.renderer().ensures((request, &ctx), r));
            r
        }
    }
}

impl Inertia<String> {
    /// Answers `request` with this response, whose props are JSON text. The
    /// page stands for the handler's url, else the request's path, and carries
    /// the server's current asset version.
    pub fn respond_json<F: Fn(&RequestInfo, &HtmlResponseContext) -> Response>(
        self,
        request: &RequestInfo,
        fairing: &VersionFairing<F>,
    ) -> (r: Response)
        requires
            fairing.wf(),
            self.wf(),
            request.path@.len() > 0,
        ensures
            fairing.answers(
                request,
                page_json(
                    self.component@,
                    page_url(opt_view(self.url), request.path@),
                    Some(fairing.current_version()),
                    self.props@,
                ),
                r,
            ),
    {
        let page = self.into_page(request.path.as_str(), fairing.version.as_str());
        fairing.negotiate(request, &page)
    }
}

impl Inertia<serde_json::Value> {
    /// Answers `request` with this response, its props put in JSON. The page
    /// stands for the handler's url, else the request's path, and carries the
    /// server's current asset version.
    pub fn respond_to<F: Fn(&RequestInfo, &HtmlResponseContext) -> Response>(
        self,
        request: &RequestInfo,
        fairing: &VersionFairing<F>,
    ) -> (r: Response)
        requires
            fairing.wf(),
            self.wf(),
            request.path@.len() > 0,
        ensures
            exists|props: Seq<char>|
                fairing.answers(
                    request,
                    #[trigger] page_json(
                        self.component@,
                        page_url(opt_view(self.url), request.path@),
                        Some(fairing.current_version()),
                        props,
                    ),
                    r,
                ),
    {
        match props_to_json(&self.props) {
            Ok(text) => {
                let ghost props = text@;
                let page = Inertia { component: self.component, props: text, url: self.url };
                let r = page.respond_json(request, fairing);
                assert(fairing.answers(
                    request,
                    page_json(
                        page.component@,
                        page_url(opt_view(page.url), request.path@),
                        Some(fairing.current_version()),
                        props,
                    ),
                    r,
                ));
                r
            },
            Err(_) => server_error(),
        }
    }
}

} // verus!
