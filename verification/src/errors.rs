use vstd::prelude::*;

verus! {

/// Rejection of a client configuration option.
#[derive(Clone, Copy, Debug, PartialEq, Eq, Structural)]
pub enum ConfigError {
    /// A proxy mapping used a selector key other than `http`, `https` or `all`.
    UnsupportedProxyScheme,
    /// A proxy value could not be parsed as a proxy URL.
    InvalidProxyUrl,
    /// A default header name or value contained an invalid character.
    InvalidHeaderValue,
    /// A trust anchor's PEM encoding could not be parsed.
    InvalidCertificateEncoding,
}

/// Rejection of a multipart form specification.
#[derive(Clone, Copy, Debug, PartialEq, Eq, Structural)]
pub enum AssemblyError {
    /// A binary part declared a MIME type that is not a valid media type.
    InvalidMimeType,
}

/// Rejection of per-request options.
#[derive(Clone, Copy, Debug, PartialEq, Eq, Structural)]
pub enum BuildError {
    /// The method, after uppercasing, is not a valid HTTP method token.
    InvalidMethod,
    /// The HTTP version pin is outside the recognized range.
    UnsupportedHttpVersion,
    /// A per-request header name or value contained an invalid character.
    InvalidHeaderValue,
    /// The multipart specification was rejected.
    Assembly(AssemblyError),
    /// The URL is not well-formed.
    MalformedRequest,
}

/// A failure reported by the transport collaborator.
#[derive(Clone, Copy, Debug, PartialEq, Eq, Structural)]
pub enum TransportError {
    /// The whole-request deadline elapsed.
    Timeout,
    /// The connection could not be established.
    Connect,
    /// TLS negotiation failed.
    Tls,
    /// The redirect hop limit was exceeded.
    RedirectLimit,
    /// Any other transport-level failure.
    Other,
}

/// A caller-supplied sink or callback rejected a chunk.
#[derive(Clone, Copy, Debug, PartialEq, Eq, Structural)]
pub struct SinkError;

/// A failure while consuming a response body.
#[derive(Clone, Copy, Debug, PartialEq, Eq, Structural)]
pub enum ConsumeError {
    /// The body of this handle was already consumed by an earlier operation.
    AlreadyConsumed,
    /// The transport failed while the body was being read.
    Transport(TransportError),
    /// The body bytes are not valid in the requested charset, or the
    /// charset label is unknown.
    Decode,
    /// The caller-supplied sink or callback failed; bytes already delivered
    /// to it are not rolled back.
    Sink,
}

} // verus!
