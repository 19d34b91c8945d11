use vstd::prelude::*;

verus! {

/// What a handler returns: the client-side component to mount, its props,
/// and the url the page stands for when it differs from the request's path.
pub struct Inertia<T> {
    pub component: String,
    pub props: T,
    pub url: Option<String>,
}

/// The page object sent to the client, as JSON or inside an HTML shell.
pub struct PageObject<T> {
    pub component: String,
    pub props: T,
    pub url: String,
    pub version: Option<String>,
}

/// The characters of an optional string.
pub open spec fn opt_view(o: Option<String>) -> Option<Seq<char>> {
    match o {
        Some(s) => Some(s@),
        None => None,
    }
}

/// The url a page stands for: the one the handler chose, else the request's path.
pub open spec fn page_url(explicit: Option<Seq<char>>, request_path: Seq<char>) -> Seq<char> {
    match explicit {
        Some(u) => u,
        None => request_path,
    }
}

impl<T> Inertia<T> {
    /// A response names a component, and any url it stands for is not empty.
    pub open spec fn wf(&self) -> bool {
        &&& self.component@.len() > 0
        &&& opt_view(self.url) matches Some(u) ==> u.len() > 0
    }

    /// A response for the given component and props; its url defaults to the request's.
    pub fn response(component: &str, props: T) -> (r: Self)
        requires
            component@.len() > 0,
        ensures
            r.wf(),
            r.component@ == component@,
            r.props == props,
            r.url is None,
    {
        Inertia { component: component.to_owned(), props, url: None }
    }

    /// The same response, standing for `url` instead of the request's path.
    pub fn with_url(self, url: &str) -> (r: Self)
        requires
            url@.len() > 0,
        ensures
            self.wf() ==> r.wf(),
            r.component == self.component,
            r.props == self.props,
            opt_view(r.url) == Some(url@),
    {
        Inertia { component: self.component, props: self.props, url: Some(url.to_owned()) }
    }

    /// The page object of this response to a request for `request_path`, while
    /// the server's asset version is `version`.
    pub fn into_page(self, request_path: &str, version: &str) -> (p: PageObject<T>)
        requires
            self.wf(),
            request_path@.len() > 0,
        ensures
            p.component@.len() > 0,
            p.url@.len() > 0,
            p.component == self.component,
            p.props == self.props,
            p.url@ == page_url(opt_view(self.url), request_path@),
            opt_view(p.version) == Some(version@),
    {
        let url = match self.url {
            Some(u) => u,
            None => request_path.to_owned(),
        };
        PageObject {
            component: self.component,
            props: self.props,
            url,
            version: Some(version.to_owned()),
        }
    }
}

} // verus!
