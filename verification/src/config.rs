use vstd::prelude::*;
use vstd::string::StringExecFns;

use crate::cert::Cert;
use crate::errors::ConfigError;
use crate::headers::{pairs_ok, pairs_view, spec_insert_all, HeaderTable};

verus! {

/// Which requests a proxy rule intercepts.
#[derive(Clone, Copy, Debug, PartialEq, Eq, Structural)]
pub enum ProxyScheme {
    Http,
    Https,
    All,
}

/// One proxy rule: a selector and the proxy URL it routes to.
#[derive(Clone, Debug)]
pub struct ProxyRule {
    pub scheme: ProxyScheme,
    pub url: String,
}

/// How many server redirects a request may follow.
#[derive(Clone, Copy, Debug, PartialEq, Eq, Structural)]
pub enum RedirectPolicy {
    /// Follow no redirect at all.
    NoFollow,
    /// Follow at most this many hops, then fail.
    Limited(usize),
}

/// The bounded hop limit used when no redirect option is given; never
/// unlimited, so a redirect loop cannot run unboundedly.
pub const DEFAULT_REDIRECT_LIMIT: usize = 10;

/// The default redirect limit is bounded: a request following three hops
/// stays within it, while one following a hundred exceeds it.
pub proof fn lemma_default_redirect_limit_bounded()
    ensures
        3 < DEFAULT_REDIRECT_LIMIT < 100,
{
}

/// The recognized client construction options. An absent option leaves its
/// default in place.
#[derive(Debug)]
pub struct ClientOptions {
    /// Scheme selector (`http`, `https` or `all`) to proxy URL, in order.
    pub proxies: Option<Vec<(String, String)>>,
    /// Default header name to value pairs, applied in order.
    pub headers: Option<Vec<(String, String)>>,
    /// Whole-request deadline in milliseconds.
    pub timeout: Option<u64>,
    /// Whether cookies persist across requests of this client.
    pub cookie_store: Option<bool>,
    /// Redirect hop limit.
    pub redirect: Option<usize>,
    /// An additional trust anchor for TLS peer validation.
    pub cert: Option<Cert>,
}

impl ClientOptions {
    /// Options with every field absent.
    pub fn none() -> (r: ClientOptions)
        ensures
            r.proxies is None,
            r.headers is None,
            r.timeout is None,
            r.cookie_store is None,
            r.redirect is None,
            r.cert is None,
    {
        ClientOptions {
            proxies: None,
            headers: None,
            timeout: None,
            cookie_store: None,
            redirect: None,
            cert: None,
        }
    }
}

/// Immutable configuration resolved once per client and shared by all its
/// requests.
#[derive(Debug)]
pub struct ClientConfig {
    pub proxies: Vec<ProxyRule>,
    pub headers: HeaderTable,
    pub timeout: Option<u64>,
    pub cookie_store: bool,
    pub redirect: RedirectPolicy,
    pub cert: Option<Cert>,
}

/// The proxy scheme selected by an option key, if the key is recognized.
pub open spec fn spec_scheme_of(k: Seq<char>) -> Option<ProxyScheme> {
    if k == "http"@ {
        Some(ProxyScheme::Http)
    } else if k == "https"@ {
        Some(ProxyScheme::Https)
    } else if k == "all"@ {
        Some(ProxyScheme::All)
    } else {
        None
    }
}

/// Whether a string parses as a proxy URL.
pub uninterp spec fn proxy_url_parses(url: Seq<char>) -> bool;

/// The rejection a single proxy option pair earns, if any: the selector
/// key is checked before the URL.
pub open spec fn proxy_pair_error(k: Seq<char>, v: Seq<char>) -> Option<ConfigError> {
    if spec_scheme_of(k) is None {
        Some(ConfigError::UnsupportedProxyScheme)
    } else if !proxy_url_parses(v) {
        Some(ConfigError::InvalidProxyUrl)
    } else {
        None
    }
}

/// The rejection of the first offending proxy pair, in order.
pub open spec fn proxies_error(pairs: Seq<(String, String)>) -> Option<ConfigError>
    decreases pairs.len(),
{
    if pairs.len() == 0 {
        None
    } else if proxy_pair_error(pairs[0].0@, pairs[0].1@) is Some {
        proxy_pair_error(pairs[0].0@, pairs[0].1@)
    } else {
        proxies_error(pairs.skip(1))
    }
}

/// The rejection `ClientConfig::build` returns for these options, if any:
/// proxy options are examined before header options.
pub open spec fn spec_config_error(opts: ClientOptions) -> Option<ConfigError> {
    let pe = match opts.proxies {
        Some(ps) => proxies_error(ps@),
        None => None,
    };
    let he = match opts.headers {
        Some(hs) => !pairs_ok(pairs_view(hs@)),
        None => false,
    };
    if pe is Some {
        pe
    } else if he {
        Some(ConfigError::InvalidHeaderValue)
    } else {
        None
    }
}

proof fn lemma_proxies_error_at(pairs: Seq<(String, String)>, i: int)
    requires
        0 <= i < pairs.len(),
        forall|j: int| 0 <= j < i ==> proxy_pair_error((#[trigger] pairs[j]).0@, pairs[j].1@) is None,
        proxy_pair_error(pairs[i].0@, pairs[i].1@) is Some,
    ensures
        proxies_error(pairs) == proxy_pair_error(pairs[i].0@, pairs[i].1@),
    decreases i,
{
    if i == 0 {
    } else {
        assert(forall|j: int|
            0 <= j < i - 1 ==> proxy_pair_error(
                (#[trigger] pairs.skip(1)[j]).0@,
                pairs.skip(1)[j].1@,
            ) is None);
        lemma_proxies_error_at(pairs.skip(1), i - 1);
    }
}

proof fn lemma_proxies_error_none(pairs: Seq<(String, String)>)
    requires
        forall|j: int|
            0 <= j < pairs.len() ==> proxy_pair_error(
                (#[trigger] pairs[j]).0@,
                pairs[j].1@,
            ) is None,
    ensures
        proxies_error(pairs) is None,
    decreases pairs.len(),
{
    if pairs.len() > 0 {
        assert(forall|j: int|
            0 <= j < pairs.skip(1).len() ==> proxy_pair_error(
                (#[trigger] pairs.skip(1)[j]).0@,
                pairs.skip(1)[j].1@,
            ) is None);
        lemma_proxies_error_none(pairs.skip(1));
    }
}

/// An unrecognized proxy scheme key always rejects the options: when the
/// first offending proxy pair is one whose selector key is not `http`,
/// `https` or `all`, `build` fails with `UnsupportedProxyScheme`, whatever
/// the other options hold.
pub proof fn lemma_unrecognized_scheme_always_fails(
    opts: ClientOptions,
    ps: Seq<(String, String)>,
    i: int,
)
    requires
        (match opts.proxies {
            Some(v) => v@ == ps,
            None => false,
        }),
        0 <= i < ps.len(),
        forall|j: int| 0 <= j < i ==> proxy_pair_error((#[trigger] ps[j]).0@, ps[j].1@) is None,
        spec_scheme_of(ps[i].0@) is None,
    ensures
        spec_config_error(opts) == Some(ConfigError::UnsupportedProxyScheme),
{
    lemma_proxies_error_at(ps, i);
}

/// The proxy scheme selected by an option key.
pub fn scheme_of(k: &str) -> (r: Option<ProxyScheme>)
    ensures
        r == spec_scheme_of(k@),
{
    let ks = k.to_owned();
    if ks == String::from_str("http") {
        Some(ProxyScheme::Http)
    } else if ks == String::from_str("https") {
        Some(ProxyScheme::Https)
    } else if ks == String::from_str("all") {
        Some(ProxyScheme::All)
    } else {
        None
    }
}

/// Relies on reqwest::Proxy::all: it fails exactly when its argument does
/// not parse as a proxy URL (Proxy::http and Proxy::https share the same
/// parse), and the outcome is a function of the string alone.
#[verifier::external_body]
fn check_proxy_url(url: &str) -> (r: bool)
    ensures
        r == proxy_url_parses(url@),
{
    reqwest::Proxy::all(url).is_ok()
}

impl ClientConfig {
    /// Resolves client options into an immutable configuration, rejecting
    /// the first offending option; no option of a rejected set is applied
    /// observably and no network activity occurs.
    pub fn build(opts: ClientOptions) -> (r: Result<ClientConfig, ConfigError>)
        ensures
            spec_config_error(opts) matches Some(e) ==> r == Err::<ClientConfig, ConfigError>(e),
            spec_config_error(opts) is None ==> r is Ok,
            r matches Ok(cfg) ==> {
                &&& opts.proxies matches Some(ps) ==> cfg.proxies@.len() == ps@.len() && (forall|
                    i: int,
                |
                    0 <= i < ps@.len() ==> spec_scheme_of((#[trigger] ps@[i]).0@) == Some(
                        cfg.proxies@[i].scheme,
                    ) && cfg.proxies@[i].url@ == ps@[i].1@)
                &&& opts.proxies is None ==> cfg.proxies@.len() == 0
                &&& opts.headers matches Some(hs) ==> cfg.headers@ == spec_insert_all(
                    Seq::empty(),
                    pairs_view(hs@),
                )
                &&& opts.headers is None ==> cfg.headers@.len() == 0
                &&& cfg.headers.wf()
                &&& cfg.timeout == opts.timeout
                &&& cfg.cookie_store == (match opts.cookie_store {
                    Some(b) => b,
                    None => false,
                })
                &&& cfg.redirect == (match opts.redirect {
                    Some(n) => RedirectPolicy::Limited(n),
                    None => RedirectPolicy::Limited(DEFAULT_REDIRECT_LIMIT),
                })
                &&& cfg.cert == opts.cert
            },
    {
        let ClientOptions { proxies, headers, timeout, cookie_store, redirect, cert } = opts;
        let mut rules: Vec<ProxyRule> = Vec::new();
        match &proxies {
            Some(ps) => {
                let n = ps.len();
                let mut i: usize = 0;
                while i < n
                    invariant
                        opts.proxies == Some(*ps),
                        n == ps@.len(),
                        i <= n,
                        rules@.len() == i,
                        forall|j: int|
                            0 <= j < i ==> proxy_pair_error(
                                (#[trigger] ps@[j]).0@,
                                ps@[j].1@,
                            ) is None,
                        forall|j: int|
                            0 <= j < i ==> spec_scheme_of((#[trigger] ps@[j]).0@) == Some(
                                rules@[j].scheme,
                            ) && rules@[j].url@ == ps@[j].1@,
                    decreases n - i,
                {
                    let scheme = match scheme_of(ps[i].0.as_str()) {
                        Some(s) => s,
                        None => {
                            proof {
                                lemma_proxies_error_at(ps@, i as int);
                            }
                            return Err(ConfigError::UnsupportedProxyScheme);
                        },
                    };
                    if !check_proxy_url(ps[i].1.as_str()) {
                        proof {
                            lemma_proxies_error_at(ps@, i as int);
                        }
                        return Err(ConfigError::InvalidProxyUrl);
                    }
                    rules.push(ProxyRule { scheme, url: ps[i].1.clone() });
                    i += 1;
                }
                proof {
                    lemma_proxies_error_none(ps@);
                }
            },
            None => {},
        }
        let mut table = HeaderTable::new();
        match &headers {
            Some(hs) => {
                if !table.insert_all(hs) {
                    return Err(ConfigError::InvalidHeaderValue);
                }
            },
            None => {},
        }
        Ok(
            ClientConfig {
                proxies: rules,
                headers: table,
                timeout,
                cookie_store: match cookie_store {
                    Some(b) => b,
                    None => false,
                },
                redirect: match redirect {
                    Some(n) => RedirectPolicy::Limited(n),
                    None => RedirectPolicy::Limited(DEFAULT_REDIRECT_LIMIT),
                },
                cert,
            },
        )
    }
}

} // verus!
