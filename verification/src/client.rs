//! Client configuration: the option set a transport client is built from,
//! with its defaults and its endpoint validation.

use vstd::prelude::*;
use vstd::string::*;
use crate::config::FreshAttributes;
use crate::error::Error;
use crate::urlio::{parse_url_norm, url_accepts, url_norm_of};
use crate::value::pairs_view;

verus! {

/// The default request timeout, in milliseconds.
pub const DEFAULT_TIMEOUT_MS: u64 = 6000;

/// The default connect timeout, in milliseconds.
pub const DEFAULT_CONNECT_TIMEOUT_MS: u64 = 6000;

/// The default read timeout, in milliseconds.
pub const DEFAULT_READ_TIMEOUT_MS: u64 = 6000;

/// The default base headers: one User-Agent entry naming this client.
pub fn default_headers() -> (r: Vec<(String, String)>)
    ensures
        pairs_view(r@) == seq![("User-Agent"@, "waygate-client/0.1.0"@)],
{
    let mut v: Vec<(String, String)> = Vec::new();
    v.push((String::from_str("User-Agent"), String::from_str("waygate-client/0.1.0")));
    proof {
        assert(pairs_view(v@) =~= seq![("User-Agent"@, "waygate-client/0.1.0"@)]);
    }
    v
}

/// The options a transport client is built from: a validated endpoint,
/// base headers, and the three timeouts in milliseconds.
#[derive(Debug)]
pub struct HttpClientOption {
    /// The base endpoint, in the url crate's normalized form.
    pub endpoint: String,
    /// The request timeout in milliseconds.
    pub timeout_ms: u64,
    /// The base headers every request starts from.
    pub headers: Vec<(String, String)>,
    /// The read timeout in milliseconds.
    pub read_timeout_ms: u64,
    /// The connect timeout in milliseconds.
    pub connect_timeout_ms: u64,
}

/// A builder for `HttpClientOption`; unset fields take the defaults at
/// `build`, and the endpoint is required.
#[derive(Debug)]
pub struct HttpClientOptionBuilder {
    endpoint: Option<String>,
    timeout_ms: Option<u64>,
    headers: Option<Vec<(String, String)>>,
    read_timeout_ms: Option<u64>,
    connect_timeout_ms: Option<u64>,
}

impl HttpClientOptionBuilder {
    /// What the builder currently holds as its endpoint text.
    pub closed spec fn endpoint_view(&self) -> Option<Seq<char>> {
        match self.endpoint {
            Some(e) => Some(e@),
            None => None,
        }
    }

    /// What the builder currently holds as its header list.
    pub closed spec fn headers_view(&self) -> Option<Seq<(Seq<char>, Seq<char>)>> {
        match self.headers {
            Some(h) => Some(pairs_view(h@)),
            None => None,
        }
    }

    /// The builder's chosen timeouts: request, connect, read.
    pub closed spec fn timeouts_view(&self) -> (Option<u64>, Option<u64>, Option<u64>) {
        (self.timeout_ms, self.connect_timeout_ms, self.read_timeout_ms)
    }

    /// Sets the endpoint text; it is validated at `build`.
    pub fn endpoint(self, endpoint: &str) -> (r: Self)
        ensures
            r.endpoint_view() == Some(endpoint@),
            r.headers_view() == self.headers_view(),
            r.timeouts_view() == self.timeouts_view(),
    {
        HttpClientOptionBuilder { endpoint: Some(String::from_str(endpoint)), ..self }
    }

    /// Sets the request timeout in milliseconds.
    pub fn timeout(self, ms: u64) -> (r: Self)
        ensures
            r.endpoint_view() == self.endpoint_view(),
            r.headers_view() == self.headers_view(),
            r.timeouts_view() == (Some(ms), self.timeouts_view().1, self.timeouts_view().2),
    {
        HttpClientOptionBuilder { timeout_ms: Some(ms), ..self }
    }

    /// Sets the connect timeout in milliseconds.
    pub fn connect_timeout(self, ms: u64) -> (r: Self)
        ensures
            r.endpoint_view() == self.endpoint_view(),
            r.headers_view() == self.headers_view(),
            r.timeouts_view() == (self.timeouts_view().0, Some(ms), self.timeouts_view().2),
    {
        HttpClientOptionBuilder { connect_timeout_ms: Some(ms), ..self }
    }

    /// Sets the read timeout in milliseconds.
    pub fn read_timeout(self, ms: u64) -> (r: Self)
        ensures
            r.endpoint_view() == self.endpoint_view(),
            r.headers_view() == self.headers_view(),
            r.timeouts_view() == (self.timeouts_view().0, self.timeouts_view().1, Some(ms)),
    {
        HttpClientOptionBuilder { read_timeout_ms: Some(ms), ..self }
    }

    /// Sets the base headers.
    pub fn headers(self, headers: Vec<(String, String)>) -> (r: Self)
        ensures
            r.endpoint_view() == self.endpoint_view(),
            r.headers_view() == Some(pairs_view(headers@)),
            r.timeouts_view() == self.timeouts_view(),
    {
        HttpClientOptionBuilder { headers: Some(headers), ..self }
    }

    /// Assembles the options: it succeeds exactly when an endpoint was set
    /// and the url crate accepts it, and fails with InvalidArgument
    /// otherwise; on success the endpoint is kept in normalized form and
    /// every unset field takes its default.
    pub fn build(self) -> (r: Result<HttpClientOption, Error>)
        ensures
            r is Ok <==> (self.endpoint_view() matches Some(ep) && url_accepts(ep)),
            r matches Ok(o) ==> {
                &&& self.endpoint_view() matches Some(ep) && o.endpoint@ == url_norm_of(ep)
                &&& pairs_view(o.headers@) == (match self.headers_view() {
                    Some(h) => h,
                    None => seq![("User-Agent"@, "waygate-client/0.1.0"@)],
                })
                &&& o.timeout_ms == (match self.timeouts_view().0 {
                    Some(t) => t,
                    None => DEFAULT_TIMEOUT_MS,
                })
                &&& o.connect_timeout_ms == (match self.timeouts_view().1 {
                    Some(t) => t,
                    None => DEFAULT_CONNECT_TIMEOUT_MS,
                })
                &&& o.read_timeout_ms == (match self.timeouts_view().2 {
                    Some(t) => t,
                    None => DEFAULT_READ_TIMEOUT_MS,
                })
            },
            r matches Err(e) ==> e is InvalidArgument,
    {
        let endpoint_text = match self.endpoint {
            Some(e) => e,
            None => {
                return Err(
                    Error::InvalidArgument {
                        message: String::from_str("an endpoint is required"),
                    },
                );
            },
        };
        let endpoint = match parse_url_norm(endpoint_text.as_str()) {
            Ok(u) => u,
            Err(m) => {
                return Err(Error::InvalidArgument { message: m });
            },
        };
        let headers = match self.headers {
            Some(h) => h,
            None => default_headers(),
        };
        let timeout_ms = match self.timeout_ms {
            Some(t) => t,
            None => DEFAULT_TIMEOUT_MS,
        };
        let connect_timeout_ms = match self.connect_timeout_ms {
            Some(t) => t,
            None => DEFAULT_CONNECT_TIMEOUT_MS,
        };
        let read_timeout_ms = match self.read_timeout_ms {
            Some(t) => t,
            None => DEFAULT_READ_TIMEOUT_MS,
        };
        Ok(HttpClientOption { endpoint, timeout_ms, headers, read_timeout_ms, connect_timeout_ms })
    }
}

impl HttpClientOption {
    /// Starts an empty builder.
    pub fn builder() -> (r: HttpClientOptionBuilder)
        ensures
            r.endpoint_view() is None,
            r.headers_view() is None,
            r.timeouts_view() == (None::<u64>, None::<u64>, None::<u64>),
    {
        HttpClientOptionBuilder {
            endpoint: None,
            timeout_ms: None,
            headers: None,
            read_timeout_ms: None,
            connect_timeout_ms: None,
        }
    }

    /// Builds options with the given endpoint and everything else at its
    /// default; it succeeds exactly when the url crate accepts the
    /// endpoint.
    pub fn with_endpoint(endpoint: &str) -> (r: Result<HttpClientOption, Error>)
        ensures
            r is Ok <==> url_accepts(endpoint@),
            r matches Ok(o) ==> {
                &&& o.endpoint@ == url_norm_of(endpoint@)
                &&& pairs_view(o.headers@) == seq![("User-Agent"@, "waygate-client/0.1.0"@)]
                &&& o.timeout_ms == DEFAULT_TIMEOUT_MS
                &&& o.connect_timeout_ms == DEFAULT_CONNECT_TIMEOUT_MS
                &&& o.read_timeout_ms == DEFAULT_READ_TIMEOUT_MS
            },
            r matches Err(e) ==> e is InvalidArgument,
    {
        HttpClientOption::builder().endpoint(endpoint).build()
    }

    /// Builds options from a parsed interface configuration, as the
    /// default constructor of a generated client does: each declared value
    /// is applied, everything else takes its default. It succeeds exactly
    /// when an endpoint was declared and the url crate accepts it; a
    /// missing or malformed endpoint fails with InvalidArgument.
    pub fn from_attributes(attrs: &FreshAttributes) -> (r: Result<HttpClientOption, Error>)
        ensures
            r is Ok <==> (attrs.endpoint matches Some(ep) && url_accepts(ep@)),
            r matches Ok(o) ==> {
                &&& attrs.endpoint matches Some(ep) && o.endpoint@ == url_norm_of(ep@)
                &&& pairs_view(o.headers@) == (if attrs.headers@.len() > 0 {
                    pairs_view(attrs.headers@)
                } else {
                    seq![("User-Agent"@, "waygate-client/0.1.0"@)]
                })
                &&& o.timeout_ms == (match attrs.timeout {
                    Some(t) => t,
                    None => DEFAULT_TIMEOUT_MS,
                })
                &&& o.connect_timeout_ms == (match attrs.connect_timeout {
                    Some(t) => t,
                    None => DEFAULT_CONNECT_TIMEOUT_MS,
                })
                &&& o.read_timeout_ms == (match attrs.read_timeout {
                    Some(t) => t,
                    None => DEFAULT_READ_TIMEOUT_MS,
                })
            },
            r matches Err(e) ==> e is InvalidArgument,
    {
        let mut b = HttpClientOption::builder();
        match &attrs.endpoint {
            Some(e) => {
                b = b.endpoint(e.as_str());
            },
            None => {
                return Err(
                    Error::InvalidArgument {
                        message: String::from_str("an endpoint is required"),
                    },
                );
            },
        }
        if attrs.headers.len() > 0 {
            let mut hs: Vec<(String, String)> = Vec::new();
            crate::config::copy_pairs(&mut hs, &attrs.headers);
            proof {
                assert(pairs_view(hs@) =~= pairs_view(attrs.headers@));
            }
            b = b.headers(hs);
        }
        match attrs.timeout {
            Some(t) => {
                b = b.timeout(t);
            },
            None => {},
        }
        match attrs.connect_timeout {
            Some(t) => {
                b = b.connect_timeout(t);
            },
            None => {},
        }
        match attrs.read_timeout {
            Some(t) => {
                b = b.read_timeout(t);
            },
            None => {},
        }
        b.build()
    }
}

} // verus!
