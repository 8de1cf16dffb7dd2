use vstd::prelude::*;

use crate::errors::TransportError;
use crate::headers::HeaderTable;
use crate::request::{HttpVersion, RequestDescriptor};
use crate::response::{BodyState, ResponseHandle, VecChunkSource};

verus! {

/// What a transport exchange yields: the response metadata and the body
/// chunk source.
pub struct RawResponse<S> {
    pub status: u16,
    pub version: HttpVersion,
    pub headers: HeaderTable,
    pub cookies: Vec<String>,
    pub content_length: Option<u64>,
    pub body: S,
}

/// The transport collaborator: it accepts a fully-built descriptor and
/// yields a raw response or a transport error. Connections, TLS, redirect
/// following and wire framing are its concern; a configured timeout is its
/// hard deadline on the whole exchange, reported as a timeout error.
pub trait Transport {
    type Source;

    /// The submissions this transport has answered, in order: each
    /// descriptor it was opened with and the error it returned, `None`
    /// for a success. Bookkeeping that lets callers state that a request
    /// is submitted exactly once and that failures surface verbatim.
    spec fn history(&self) -> Seq<(RequestDescriptor, Option<TransportError>)>;

    fn open(&mut self, desc: &RequestDescriptor) -> (r: Result<
        RawResponse<Self::Source>,
        TransportError,
    >)
        ensures
            final(self).history() == old(self).history().push(
                (
                    *desc,
                    match r {
                        Ok(_) => None,
                        Err(e) => Some(e),
                    },
                ),
            ),
    ;
}

/// Wraps raw transport response parts into a one-shot handle: metadata is
/// carried over unchanged and the body starts unconsumed.
pub fn wrap_response<S>(raw: RawResponse<S>) -> (h: ResponseHandle<S>)
    ensures
        h.status == raw.status,
        h.version == raw.version,
        h.headers == raw.headers,
        h.cookies == raw.cookies,
        h.content_length == raw.content_length,
        h.body matches BodyState::Unconsumed(s) && s == raw.body,
{
    ResponseHandle {
        status: raw.status,
        version: raw.version,
        headers: raw.headers,
        cookies: raw.cookies,
        content_length: raw.content_length,
        body: BodyState::Unconsumed(raw.body),
    }
}

/// Submits the descriptor to the transport exactly once and, on success,
/// hands back a handle whose body is unconsumed; a transport failure
/// surfaces verbatim and is not retried here — retry policy is the
/// caller's.
pub fn execute<T: Transport>(transport: &mut T, desc: &RequestDescriptor) -> (r: Result<
    ResponseHandle<T::Source>,
    TransportError,
>)
    ensures
        final(transport).history() == old(transport).history().push(
            (
                *desc,
                match r {
                    Ok(_) => None,
                    Err(e) => Some(e),
                },
            ),
        ),
        r matches Ok(h) ==> !(h.body is Consumed),
{
    match transport.open(desc) {
        Ok(raw) => Ok(wrap_response(raw)),
        Err(e) => Err(e),
    }
}

/// A transport serving one canned in-memory response: the first `open`
/// yields it, every later `open` fails as a refused connection does.
pub struct ScriptedTransport {
    pub response: Option<RawResponse<VecChunkSource>>,
    pub log: Ghost<Seq<(RequestDescriptor, Option<TransportError>)>>,
}

impl ScriptedTransport {
    pub fn new(response: RawResponse<VecChunkSource>) -> (r: ScriptedTransport)
        ensures
            r.history() == Seq::<(RequestDescriptor, Option<TransportError>)>::empty(),
            r.response is Some,
    {
        ScriptedTransport { response: Some(response), log: Ghost(Seq::empty()) }
    }
}

impl Transport for ScriptedTransport {
    type Source = VecChunkSource;

    open spec fn history(&self) -> Seq<(RequestDescriptor, Option<TransportError>)> {
        self.log@
    }

    fn open(&mut self, desc: &RequestDescriptor) -> (r: Result<
        RawResponse<VecChunkSource>,
        TransportError,
    >)
        ensures
            old(self).response is Some ==> r is Ok,
    {
        let mut taken: Option<RawResponse<VecChunkSource>> = None;
        core::mem::swap(&mut taken, &mut self.response);
        match taken {
            Some(raw) => {
                proof {
                    self.log@ = self.log@.push((*desc, None));
                }
                Ok(raw)
            },
            None => {
                proof {
                    self.log@ = self.log@.push((*desc, Some(TransportError::Connect)));
                }
                Err(TransportError::Connect)
            },
        }
    }
}

} // verus!
