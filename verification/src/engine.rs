//! The request engine's description: which URLs to hit round-robin,
//! with which method and headers, and which of the two transport
//! backends should carry the requests. The transports themselves do
//! network I/O and live outside the library; the engine's data and its
//! URL rotation are specified here.

use vstd::prelude::*;

verus! {

/// The methods that are supported by the current implementations.
/// These are body-less methods, so no request content is ever loaded.
#[derive(Debug, Clone, Copy, PartialEq, Eq)]
pub enum Method {
    Get,
    Head,
}

pub const DEFAULT_METHOD: Method = Method::Get;

/// Which of the two transport backends carries the requests.
#[derive(Debug, Clone, Copy)]
enum Kind {
    Reqwest,
    Hyper,
}

const DEFAULT_KIND: Kind = Kind::Reqwest;

/// The engine of making requests: the URL rotation, the method, the
/// extra headers and the chosen transport backend.
#[derive(Debug, Clone)]
pub struct Engine {
    urls: Vec<String>,
    method: Method,
    headers: Vec<(String, String)>,
    kind: Kind,
}

impl Engine {
    pub closed spec fn spec_urls(&self) -> Seq<String> {
        self.urls@
    }

    pub closed spec fn spec_method(&self) -> Method {
        self.method
    }

    pub closed spec fn spec_headers(&self) -> Seq<(String, String)> {
        self.headers@
    }

    pub closed spec fn spec_is_hyper(&self) -> bool {
        self.kind is Hyper
    }

    /// A new engine over the given URLs and headers; it issues `GET`
    /// requests over the default backend until told otherwise.
    pub fn new(urls: Vec<String>, headers: Vec<(String, String)>) -> (e: Engine)
        ensures
            e.spec_urls() == urls@,
            e.spec_headers() == headers@,
            e.spec_method() == Method::Get,
            !e.spec_is_hyper(),
    {
        Engine { urls, method: DEFAULT_METHOD, headers, kind: DEFAULT_KIND }
    }

    /// Sets the method to use with the requests.
    pub fn with_method(self, method: Method) -> (e: Self)
        ensures
            e.spec_urls() == self.spec_urls(),
            e.spec_headers() == self.spec_headers(),
            e.spec_method() == method,
            e.spec_is_hyper() == self.spec_is_hyper(),
    {
        Engine { method, ..self }
    }

    /// Sets the engine to run on the alternative backend.
    pub fn with_hyper(self) -> (e: Self)
        ensures
            e.spec_urls() == self.spec_urls(),
            e.spec_headers() == self.spec_headers(),
            e.spec_method() == self.spec_method(),
            e.spec_is_hyper(),
    {
        Engine { kind: Kind::Hyper, ..self }
    }

    /// The URLs the engine rotates through.
    pub fn urls(&self) -> (u: &Vec<String>)
        ensures
            u@ == self.spec_urls(),
    {
        &self.urls
    }

    /// The headers injected into every request.
    pub fn headers(&self) -> (h: &Vec<(String, String)>)
        ensures
            h@ == self.spec_headers(),
    {
        &self.headers
    }

    /// The method every request uses.
    pub fn method(&self) -> (m: Method)
        ensures
            m == self.spec_method(),
    {
        self.method
    }

    /// Whether the alternative backend was chosen.
    pub fn is_hyper(&self) -> (b: bool)
        ensures
            b == self.spec_is_hyper(),
    {
        match self.kind {
            Kind::Hyper => true,
            Kind::Reqwest => false,
        }
    }

    /// The URL for the `n`-th request: the URLs are round-robined.
    pub fn url_for(&self, n: usize) -> (u: &String)
        requires
            self.spec_urls().len() >= 1,
        ensures
            *u == self.spec_urls()[n as int % self.spec_urls().len() as int],
    {
        &self.urls[n % self.urls.len()]
    }
}

} // verus!
