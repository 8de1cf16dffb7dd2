use vstd::prelude::*;

use crate::ascii::{token_ok, upper_bytes, upper_if_token, utf8_bytes};
use crate::config::ClientConfig;
use crate::errors::{AssemblyError, BuildError};
use crate::headers::{pairs_ok, pairs_view, spec_insert_all, HeaderTable};
use crate::multipart::{assemble, spec_parts_ok, MultipartForm, MultipartSpec};

verus! {

/// An HTTP version pin.
#[derive(Clone, Copy, Debug, PartialEq, Eq, Structural)]
pub enum HttpVersion {
    Http09,
    Http10,
    Http11,
    Http2,
    Http3,
}

/// The version an integer pin selects: 0 through 4 in ascending order of
/// protocol version; anything else is rejected.
pub open spec fn spec_version_of(v: i32) -> Result<HttpVersion, BuildError> {
    if v == 0 {
        Ok(HttpVersion::Http09)
    } else if v == 1 {
        Ok(HttpVersion::Http10)
    } else if v == 2 {
        Ok(HttpVersion::Http11)
    } else if v == 3 {
        Ok(HttpVersion::Http2)
    } else if v == 4 {
        Ok(HttpVersion::Http3)
    } else {
        Err(BuildError::UnsupportedHttpVersion)
    }
}

/// Maps an integer version pin to its HTTP version.
pub fn version_from_int(v: i32) -> (r: Result<HttpVersion, BuildError>)
    ensures
        r == spec_version_of(v),
{
    if v == 0 {
        Ok(HttpVersion::Http09)
    } else if v == 1 {
        Ok(HttpVersion::Http10)
    } else if v == 2 {
        Ok(HttpVersion::Http11)
    } else if v == 3 {
        Ok(HttpVersion::Http2)
    } else if v == 4 {
        Ok(HttpVersion::Http3)
    } else {
        Err(BuildError::UnsupportedHttpVersion)
    }
}

/// The request's authentication: when both basic and bearer options are
/// supplied, bearer is applied last and wins.
#[derive(Debug)]
pub enum Auth {
    Anonymous,
    Basic { usr: String, pwd: Option<String> },
    Bearer { token: String },
}

/// The request's body. Exactly one variant is active: raw bytes, a
/// url-encoded form and a multipart form are mutually exclusive, the
/// last-applied option (form over multipart over raw) winning.
#[derive(Debug)]
pub enum RequestBody {
    Empty,
    Raw(Vec<u8>),
    Form(Vec<(String, String)>),
    Multipart(MultipartForm),
}

/// The recognized per-request options. An absent option leaves the
/// client's default in place.
#[derive(Debug)]
pub struct RequestOptions {
    pub body: Option<Vec<u8>>,
    pub headers: Option<Vec<(String, String)>>,
    pub usr: Option<String>,
    pub pwd: Option<String>,
    pub token: Option<String>,
    pub timeout: Option<u64>,
    pub query: Option<Vec<(String, String)>>,
    pub multipart: Option<MultipartSpec>,
    pub form: Option<Vec<(String, String)>>,
    pub version: Option<i32>,
}

impl RequestOptions {
    /// Options with every field absent.
    pub fn none() -> (r: RequestOptions)
        ensures
            r.body is None,
            r.headers is None,
            r.usr is None,
            r.pwd is None,
            r.token is None,
            r.timeout is None,
            r.query is None,
            r.multipart is None,
            r.form is None,
            r.version is None,
    {
        RequestOptions {
            body: None,
            headers: None,
            usr: None,
            pwd: None,
            token: None,
            timeout: None,
            query: None,
            multipart: None,
            form: None,
            version: None,
        }
    }
}

/// An immutable, fully-resolved request, ready for transport submission
/// and consumed exactly once by the executor.
#[derive(Debug)]
pub struct RequestDescriptor {
    /// The uppercased, validated method token.
    pub method: String,
    pub url: String,
    pub body: RequestBody,
    /// The client's default headers extended and overridden by the
    /// per-request pairs.
    pub headers: HeaderTable,
    pub auth: Auth,
    /// The effective whole-request deadline in milliseconds: the
    /// per-request override when given, else the client's.
    pub timeout: Option<u64>,
    /// Query parameters appended to the URL in order; repeats allowed,
    /// nothing deduplicated.
    pub query: Vec<(String, String)>,
    pub version: Option<HttpVersion>,
}

/// Whether a string is usable as a request URL: well-formed and carrying
/// a host.
pub uninterp spec fn url_parses(u: Seq<char>) -> bool;

/// Relies on url::Url::parse and url::Url::has_host (reqwest re-exports
/// the type as reqwest::Url): a string is accepted exactly when it parses
/// as a URL that carries a host, which is what reqwest demands of a
/// request URL; the outcome is a function of the string alone.
#[verifier::external_body]
fn check_url(u: &str) -> (r: bool)
    ensures
        r == url_parses(u@),
{
    match reqwest::Url::parse(u) {
        Ok(url) => url.has_host(),
        Err(_) => false,
    }
}

/// The rejection `RequestDescriptor::build` returns, if any, in the order
/// the options are examined: method, then headers, then the multipart
/// specification, then the version pin, then the URL.
pub open spec fn spec_build_error(
    method: Seq<char>,
    url: Seq<char>,
    opts: RequestOptions,
) -> Option<BuildError> {
    let headers_bad = match opts.headers {
        Some(hs) => !pairs_ok(pairs_view(hs@)),
        None => false,
    };
    let multipart_bad = match opts.multipart {
        Some(m) => !spec_parts_ok(m.parts@),
        None => false,
    };
    let version_bad = match opts.version {
        Some(v) => !(0 <= v <= 4),
        None => false,
    };
    if !token_ok(upper_bytes(utf8_bytes(method))) {
        Some(BuildError::InvalidMethod)
    } else if headers_bad {
        Some(BuildError::InvalidHeaderValue)
    } else if multipart_bad {
        Some(BuildError::Assembly(AssemblyError::InvalidMimeType))
    } else if version_bad {
        Some(BuildError::UnsupportedHttpVersion)
    } else if !url_parses(url) {
        Some(BuildError::MalformedRequest)
    } else {
        None
    }
}

impl RequestDescriptor {
    /// Merges the client's defaults with the per-request options into one
    /// immutable descriptor; no network activity occurs.
    pub fn build(cfg: &ClientConfig, method: &str, url: &str, opts: RequestOptions) -> (r: Result<
        RequestDescriptor,
        BuildError,
    >)
        requires
            cfg.headers.wf(),
        ensures
            spec_build_error(method@, url@, opts) matches Some(e) ==> r == Err::<
                RequestDescriptor,
                BuildError,
            >(e),
            spec_build_error(method@, url@, opts) is None ==> r is Ok,
            r matches Ok(d) ==> {
                &&& utf8_bytes(d.method@) == upper_bytes(utf8_bytes(method@))
                &&& d.url@ == url@
                &&& opts.form matches Some(f) ==> d.body == RequestBody::Form(f)
                &&& opts.form is None ==> (opts.multipart matches Some(m) ==> (
                d.body matches RequestBody::Multipart(mf) && mf.text == m.text && mf.parts
                    == m.parts && mf.encode == m.encode))
                &&& (opts.form is None && opts.multipart is None) ==> (opts.body matches Some(b)
                    ==> d.body == RequestBody::Raw(b))
                &&& (opts.form is None && opts.multipart is None && opts.body is None) ==> d.body
                    == RequestBody::Empty
                &&& d.headers@ == spec_insert_all(
                    cfg.headers@,
                    match opts.headers {
                        Some(hs) => pairs_view(hs@),
                        None => Seq::empty(),
                    },
                )
                &&& d.headers.wf()
                &&& opts.token matches Some(t) ==> (d.auth matches Auth::Bearer { token } && token
                    == t)
                &&& opts.token is None ==> (opts.usr matches Some(u) ==> (
                d.auth matches Auth::Basic { usr, pwd } && usr == u && pwd == opts.pwd))
                &&& (opts.token is None && opts.usr is None) ==> d.auth == Auth::Anonymous
                &&& d.timeout == (if opts.timeout is Some {
                    opts.timeout
                } else {
                    cfg.timeout
                })
                &&& d.query@ == (match opts.query {
                    Some(q) => q@,
                    None => Seq::<(String, String)>::empty(),
                })
                &&& opts.version matches Some(v) ==> (spec_version_of(v) matches Ok(ver)
                    && d.version == Some(ver))
                &&& opts.version is None ==> d.version is None
            },
    {
        let method_s = match upper_if_token(method) {
            Some(s) => s,
            None => {
                return Err(BuildError::InvalidMethod);
            },
        };
        let RequestOptions { body, headers, usr, pwd, token, timeout, query, multipart, form, version } =
            opts;
        let mut table = cfg.headers.duplicate();
        match &headers {
            Some(hs) => {
                if !table.insert_all(hs) {
                    return Err(BuildError::InvalidHeaderValue);
                }
            },
            None => {},
        }
        let multipart_form = match multipart {
            Some(m) => match assemble(m) {
                Ok(f) => Some(f),
                Err(_) => {
                    return Err(BuildError::Assembly(AssemblyError::InvalidMimeType));
                },
            },
            None => None,
        };
        let pinned = match version {
            Some(v) => match version_from_int(v) {
                Ok(ver) => Some(ver),
                Err(e) => {
                    return Err(e);
                },
            },
            None => None,
        };
        if !check_url(url) {
            return Err(BuildError::MalformedRequest);
        }
        let req_body = if let Some(f) = form {
            RequestBody::Form(f)
        } else if let Some(mf) = multipart_form {
            RequestBody::Multipart(mf)
        } else if let Some(b) = body {
            RequestBody::Raw(b)
        } else {
            RequestBody::Empty
        };
        let auth = if let Some(t) = token {
            Auth::Bearer { token: t }
        } else if let Some(u) = usr {
            Auth::Basic { usr: u, pwd }
        } else {
            Auth::Anonymous
        };
        Ok(
            RequestDescriptor {
                method: method_s,
                url: url.to_owned(),
                body: req_body,
                headers: table,
                auth,
                timeout: if timeout.is_some() {
                    timeout
                } else {
                    cfg.timeout
                },
                query: match query {
                    Some(q) => q,
                    None => Vec::new(),
                },
                version: pinned,
            },
        )
    }
}

} // verus!
