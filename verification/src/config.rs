//! The connection descriptor shared by every request.

use vstd::prelude::*;

verus! {

/// Names whether `url::Url::parse` accepts a text. The result depends on the
/// text alone.
pub uninterp spec fn url_parse_ok(s: Seq<char>) -> bool;

/// Relies on `url::Url::parse`: it accepts the fixed production endpoint
/// `https://api.openai.com/v1/`, an absolute URL literal.
#[verifier::external_body]
fn default_url() -> (s: String)
    ensures
        s@ == "https://api.openai.com/v1/"@,
        url_parse_ok(s@),
{
    let s = String::from("https://api.openai.com/v1/");
    let _ = url::Url::parse(&s).unwrap();
    s
}

/// What is needed to reach the API: the key, the endpoint, extra headers to
/// send with each request, and the organization. Built once; the
/// builder-style methods consume the value and hand back the changed one, so
/// a shared `Config` is never mutated.
#[derive(Debug, Clone)]
pub struct Config {
    api_key: String,
    url: String,
    /// Headers sent with each request.
    pub headers: Vec<(String, String)>,
    pub organization: String,
}

impl Config {
    /// The endpoint text always parses as an absolute URL.
    pub closed spec fn wf(&self) -> bool {
        url_parse_ok(self.url@)
    }

    /// The key's text.
    pub closed spec fn spec_api_key(&self) -> Seq<char> {
        self.api_key@
    }

    /// The endpoint's text.
    pub closed spec fn spec_url(&self) -> Seq<char> {
        self.url@
    }

    /// The headers as pairs of texts.
    pub closed spec fn spec_headers(&self) -> Seq<(String, String)> {
        self.headers@
    }

    /// The organization's text.
    pub closed spec fn spec_organization(&self) -> Seq<char> {
        self.organization@
    }

    /// A configuration for the given key, with the production endpoint and
    /// nothing else set.
    pub fn new(api_key: String) -> (r: Config)
        ensures
            r.spec_api_key() == api_key@,
            r.spec_url() == "https://api.openai.com/v1/"@,
            r.spec_headers().len() == 0,
            r.spec_organization().len() == 0,
            r.wf(),
    {
        Config {
            api_key,
            url: default_url(),
            headers: Vec::new(),
            organization: String::new(),
        }
    }

    /// Replaces the headers, leaving everything else as it was.
    pub fn headers(self, headers: Vec<(String, String)>) -> (r: Config)
        ensures
            r.spec_headers() == headers@,
            r.spec_api_key() == self.spec_api_key(),
            r.spec_url() == self.spec_url(),
            r.spec_organization() == self.spec_organization(),
            self.wf() ==> r.wf(),
    {
        Config { headers, ..self }
    }

    /// The key the requests authenticate with.
    pub fn api_key(&self) -> (r: &String)
        ensures
            r@ == self.spec_api_key(),
    {
        &self.api_key
    }

    /// The endpoint the requests go to.
    pub fn url(&self) -> (r: &String)
        ensures
            r@ == self.spec_url(),
            self.wf() ==> url_parse_ok(r@),
    {
        &self.url
    }
}

impl Default for Config {
    /// An empty key, the production endpoint, no headers, no organization.
    fn default() -> (r: Config)
        ensures
            r.spec_api_key().len() == 0,
            r.spec_url() == "https://api.openai.com/v1/"@,
            r.spec_headers().len() == 0,
            r.spec_organization().len() == 0,
            r.wf(),
    {
        Config::new(String::new())
    }
}

} // verus!
