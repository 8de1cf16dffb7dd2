use vstd::prelude::*;

use crate::ascii::utf8_bytes;
use crate::errors::{ConsumeError, SinkError, TransportError};
use crate::headers::HeaderTable;
use crate::request::HttpVersion;

verus! {

broadcast use vstd::seq_lib::group_seq_properties;

/// The total byte count of a chunk sequence: what a streaming consumer
/// counts as it writes the chunks one by one.
pub open spec fn total_len(chunks: Seq<Seq<u8>>) -> nat
    decreases chunks.len(),
{
    if chunks.len() == 0 {
        0
    } else {
        chunks[0].len() + total_len(chunks.skip(1))
    }
}

/// The buffered body: the chunks concatenated in wire order.
pub open spec fn body_bytes(chunks: Seq<Seq<u8>>) -> Seq<u8> {
    chunks.flatten()
}

pub proof fn lemma_total_len_concat(a: Seq<Seq<u8>>, b: Seq<Seq<u8>>)
    ensures
        total_len(a + b) == total_len(a) + total_len(b),
    decreases a.len(),
{
    if a.len() == 0 {
        assert(a + b =~= b);
    } else {
        assert((a + b).skip(1) =~= a.skip(1) + b);
        lemma_total_len_concat(a.skip(1), b);
    }
}

pub proof fn lemma_total_len_push(s: Seq<Seq<u8>>, c: Seq<u8>)
    ensures
        total_len(s.push(c)) == total_len(s) + c.len(),
{
    assert(s.push(c) =~= s + seq![c]);
    assert(seq![c].skip(1) =~= Seq::<Seq<u8>>::empty());
    assert(total_len(Seq::<Seq<u8>>::empty()) == 0);
    assert(seq![c][0] == c);
    assert(total_len(seq![c]) == c.len() + total_len(seq![c].skip(1)));
    lemma_total_len_concat(s, seq![c]);
}

/// Streaming and buffering agree: over any chunk sequence, the byte count
/// a streaming consumer totals up equals the length of the buffered body.
pub proof fn lemma_streamed_total_is_buffered_len(chunks: Seq<Seq<u8>>)
    ensures
        total_len(chunks) == body_bytes(chunks).len(),
    decreases chunks.len(),
{
    if chunks.len() == 0 {
        assert(chunks.flatten() =~= Seq::<u8>::empty());
    } else {
        lemma_streamed_total_is_buffered_len(chunks.skip(1));
        assert(chunks.drop_first() =~= chunks.skip(1));
        assert(chunks.flatten() == chunks.first() + chunks.drop_first().flatten());
    }
}

/// The transport's view of a response body: a source of chunks in wire
/// order. `remaining` is the abstract sequence of chunks still to come.
pub trait ChunkSource: Sized {
    spec fn remaining(&self) -> Seq<Seq<u8>>;

    /// Yields the next chunk, `None` at the end of the body, or a
    /// transport failure. Chunks arrive strictly in wire order; a size is
    /// whatever the transport delivered, not fixed.
    fn next_chunk(&mut self) -> (r: Result<Option<Vec<u8>>, TransportError>)
        ensures
            match r {
                Ok(Some(chunk)) => old(self).remaining().len() > 0 && chunk@ == old(
                    self,
                ).remaining()[0] && final(self).remaining() == old(self).remaining().skip(1),
                Ok(None) => old(self).remaining().len() == 0,
                Err(_) => true,
            },
    ;
}

/// A caller-supplied destination for streamed bytes. `written` is the
/// abstract sequence of bytes the sink has accepted so far.
pub trait ByteSink {
    spec fn written(&self) -> Seq<u8>;

    /// Writes one chunk. On failure some prefix of the chunk may have
    /// been written; bytes already accepted are never rolled back.
    fn write_chunk(&mut self, chunk: &Vec<u8>) -> (r: Result<(), SinkError>)
        ensures
            r is Ok ==> final(self).written() == old(self).written() + chunk@,
            r is Err ==> exists|k: int|
                0 <= k <= chunk@.len() && final(self).written() == old(self).written()
                    + chunk@.take(k),
    ;
}

/// A caller-supplied callback invoked once per chunk together with the
/// declared total length. `seen` is the abstract record of its calls.
pub trait ChunkCallback {
    spec fn seen(&self) -> Seq<(Seq<u8>, u64)>;

    /// Handles one chunk; an error aborts the stream.
    fn on_chunk(&mut self, chunk: &Vec<u8>, expected_total: u64) -> (r: Result<(), SinkError>)
        ensures
            r is Ok ==> final(self).seen() == old(self).seen().push((chunk@, expected_total)),
            r is Err ==> final(self).seen() == old(self).seen(),
    ;
}

/// Body state of a response handle: `Unconsumed` owns the body resource,
/// and any consuming operation moves it out, leaving the terminal
/// `Consumed` marker, so a second consumption is impossible.
#[derive(Debug)]
pub enum BodyState<S> {
    Unconsumed(S),
    Consumed,
}

/// A response: its metadata, readable any number of times, and a body
/// that may be consumed exactly once, buffered or streamed.
#[derive(Debug)]
pub struct ResponseHandle<S> {
    pub status: u16,
    pub version: HttpVersion,
    /// Headers in wire order, duplicate names collapsed to the last
    /// occurrence.
    pub headers: HeaderTable,
    /// Parsed Set-Cookie directives, in wire order.
    pub cookies: Vec<String>,
    /// The declared content length, when the server declared one.
    pub content_length: Option<u64>,
    pub body: BodyState<S>,
}

/// The declared total handed to chunk callbacks: the content length, or
/// zero when the server did not declare one.
pub open spec fn spec_expected_total(content_length: Option<u64>) -> u64 {
    match content_length {
        Some(n) => n,
        None => 0,
    }
}

/// Drains a chunk source to one buffer, in wire order.
fn drain<S: ChunkSource>(src: &mut S) -> (r: Result<Vec<u8>, TransportError>)
    ensures
        r matches Ok(b) ==> b@ == body_bytes(old(src).remaining()),
{
    let ghost all = src.remaining();
    let ghost mut processed: Seq<Seq<u8>> = Seq::empty();
    let mut out: Vec<u8> = Vec::new();
    loop
        invariant
            all == old(src).remaining(),
            processed + src.remaining() =~= all,
            out@ == processed.flatten(),
        decreases src.remaining().len(),
    {
        match src.next_chunk() {
            Ok(Some(chunk)) => {
                out.extend_from_slice(chunk.as_slice());
                proof {
                    processed.lemma_flatten_push(chunk@);
                    processed = processed.push(chunk@);
                    assert(processed + src.remaining() =~= all);
                }
            },
            Ok(None) => {
                proof {
                    assert(processed =~= all);
                }
                return Ok(out);
            },
            Err(e) => {
                return Err(e);
            },
        }
    }
}

impl<S: ChunkSource> ResponseHandle<S> {
    /// Two handles carrying the same metadata; consuming operations
    /// preserve it, so metadata stays readable after consumption.
    pub open spec fn same_meta(a: Self, b: Self) -> bool {
        &&& a.status == b.status
        &&& a.version == b.version
        &&& a.headers == b.headers
        &&& a.cookies == b.cookies
        &&& a.content_length == b.content_length
    }

    pub open spec fn consumed(self) -> bool {
        self.body is Consumed
    }

    /// The chunks the body will deliver; empty once consumed.
    pub open spec fn chunks(self) -> Seq<Seq<u8>> {
        match self.body {
            BodyState::Unconsumed(s) => s.remaining(),
            BodyState::Consumed => Seq::empty(),
        }
    }

    /// Metadata read: does not touch the body state.
    pub fn status_code(&self) -> (r: u16)
        ensures
            r == self.status,
    {
        self.status
    }

    /// Metadata read: does not touch the body state.
    pub fn version(&self) -> (r: HttpVersion)
        ensures
            r == self.version,
    {
        self.version
    }

    /// Metadata read: does not touch the body state.
    pub fn headers(&self) -> (r: &HeaderTable)
        ensures
            r == &self.headers,
    {
        &self.headers
    }

    /// Metadata read: does not touch the body state.
    pub fn cookies(&self) -> (r: &Vec<String>)
        ensures
            r == &self.cookies,
    {
        &self.cookies
    }

    /// Metadata read: does not touch the body state.
    pub fn content_length(&self) -> (r: Option<u64>)
        ensures
            r == self.content_length,
    {
        self.content_length
    }

    /// Takes exclusive ownership of the body resource, atomically moving
    /// the handle to `Consumed`; fails when it already was.
    fn take_body(&mut self) -> (r: Result<S, ConsumeError>)
        ensures
            final(self).consumed(),
            Self::same_meta(*old(self), *final(self)),
            old(self).consumed() ==> r == Err::<S, ConsumeError>(ConsumeError::AlreadyConsumed),
            old(self).body matches BodyState::Unconsumed(s) ==> r == Ok::<S, ConsumeError>(s),
    {
        let mut b = BodyState::Consumed;
        core::mem::swap(&mut b, &mut self.body);
        match b {
            BodyState::Unconsumed(src) => Ok(src),
            BodyState::Consumed => Err(ConsumeError::AlreadyConsumed),
        }
    }

    /// Buffers and returns the entire body verbatim. Consuming: a second
    /// consuming call on this handle fails with `AlreadyConsumed`, while
    /// metadata stays readable.
    pub fn bytes(&mut self) -> (r: Result<Vec<u8>, ConsumeError>)
        ensures
            final(self).consumed(),
            Self::same_meta(*old(self), *final(self)),
            old(self).consumed() ==> r == Err::<Vec<u8>, ConsumeError>(
                ConsumeError::AlreadyConsumed,
            ),
            !old(self).consumed() ==> match r {
                Ok(b) => b@ == body_bytes(old(self).chunks()),
                Err(e) => e matches ConsumeError::Transport(_),
            },
    {
        let mut src = match self.take_body() {
            Ok(s) => s,
            Err(e) => {
                return Err(e);
            },
        };
        match drain(&mut src) {
            Ok(b) => Ok(b),
            Err(e) => Err(ConsumeError::Transport(e)),
        }
    }

    /// Buffers the body and decodes it with the given charset label (the
    /// default is utf-8). Fails with `Decode` exactly when the label is
    /// unknown or some byte sequence is invalid for that charset.
    /// Consuming, as `bytes` is.
    pub fn text_with_charset(&mut self, charset: &str) -> (r: Result<String, ConsumeError>)
        ensures
            final(self).consumed(),
            Self::same_meta(*old(self), *final(self)),
            old(self).consumed() ==> r == Err::<String, ConsumeError>(
                ConsumeError::AlreadyConsumed,
            ),
            !old(self).consumed() ==> match r {
                Ok(s) => {
                    &&& charset_known(utf8_bytes(charset@))
                    &&& charset_decode(
                        utf8_bytes(charset@),
                        body_bytes(old(self).chunks()),
                    ).1 == false
                    &&& s@ == charset_decode(
                        utf8_bytes(charset@),
                        body_bytes(old(self).chunks()),
                    ).0
                },
                Err(e) => {
                    ||| e matches ConsumeError::Transport(_)
                    ||| (e == ConsumeError::Decode && (!charset_known(utf8_bytes(charset@))
                        || charset_decode(
                        utf8_bytes(charset@),
                        body_bytes(old(self).chunks()),
                    ).1 == true))
                },
            },
    {
        let mut src = match self.take_body() {
            Ok(s) => s,
            Err(e) => {
                return Err(e);
            },
        };
        let buf = match drain(&mut src) {
            Ok(b) => b,
            Err(e) => {
                return Err(ConsumeError::Transport(e));
            },
        };
        match decode_charset(charset, &buf) {
            Some((text, had_errors)) => {
                if had_errors {
                    Err(ConsumeError::Decode)
                } else {
                    Ok(text)
                }
            },
            None => Err(ConsumeError::Decode),
        }
    }

    /// Streams the body into `sink` chunk by chunk, writing each chunk
    /// before requesting the next (the consumer never reads ahead of the
    /// sink's write rate), and returns the total byte count written. A
    /// sink or transport failure aborts the stream early; what was already
    /// written — some prefix of the body — stays with the sink, nothing is
    /// rolled back. Consuming, as `bytes` is.
    pub fn write_bytes<K: ByteSink>(&mut self, sink: &mut K) -> (r: Result<u64, ConsumeError>)
        requires
            total_len(old(self).chunks()) <= u64::MAX,
        ensures
            final(self).consumed(),
            Self::same_meta(*old(self), *final(self)),
            old(self).consumed() ==> r == Err::<u64, ConsumeError>(ConsumeError::AlreadyConsumed)
                && final(sink).written() == old(sink).written(),
            !old(self).consumed() ==> match r {
                Ok(n) => n as nat == total_len(old(self).chunks()) && final(sink).written() == old(
                    sink,
                ).written() + body_bytes(old(self).chunks()),
                Err(e) => (e matches ConsumeError::Transport(_) || e == ConsumeError::Sink) && (
                exists|p: Seq<u8>|
                    #![auto]
                    p.is_prefix_of(body_bytes(old(self).chunks())) && final(sink).written() == old(
                        sink,
                    ).written() + p),
            },
    {
        let mut src = match self.take_body() {
            Ok(s) => s,
            Err(e) => {
                return Err(e);
            },
        };
        let ghost all = src.remaining();
        let ghost mut processed: Seq<Seq<u8>> = Seq::empty();
        let mut total: u64 = 0;
        proof {
            assert(old(sink).written() + processed.flatten() =~= sink.written());
        }
        loop
            invariant
                !old(self).consumed(),
                self.consumed(),
                Self::same_meta(*old(self), *self),
                all == old(self).chunks(),
                processed + src.remaining() =~= all,
                total as nat == total_len(processed),
                total_len(all) <= u64::MAX,
                sink.written() == old(sink).written() + processed.flatten(),
            decreases src.remaining().len(),
        {
            let ghost rem_before = src.remaining();
            match src.next_chunk() {
                Ok(Some(chunk)) => {
                    let ghost before = sink.written();
                    if let Err(_) = sink.write_chunk(&chunk) {
                        proof {
                            let fp = processed.flatten();
                            let k = choose|k: int|
                                0 <= k <= chunk@.len() && sink.written() == before + chunk@.take(
                                    k,
                                );
                            let p = fp + chunk@.take(k);
                            assert(rem_before =~= seq![chunk@] + src.remaining());
                            assert(all =~= processed + (seq![chunk@] + src.remaining()));
                            vstd::seq_lib::lemma_flatten_concat(
                                processed,
                                seq![chunk@] + src.remaining(),
                            );
                            vstd::seq_lib::lemma_flatten_concat(seq![chunk@], src.remaining());
                            assert(seq![chunk@].flatten() =~= chunk@);
                            assert(body_bytes(all) =~= fp + chunk@ + src.remaining().flatten());
                            assert(p =~= body_bytes(all).subrange(0, p.len() as int));
                            assert(p.is_prefix_of(body_bytes(all)));
                            assert(sink.written() == old(sink).written() + p) by {
                                assert(before + chunk@.take(k) =~= old(sink).written() + p);
                            }
                        }
                        return Err(ConsumeError::Sink);
                    }
                    proof {
                        processed.lemma_flatten_push(chunk@);
                        lemma_total_len_push(processed, chunk@);
                        assert(sink.written() =~= old(sink).written() + processed.push(
                            chunk@,
                        ).flatten());
                        processed = processed.push(chunk@);
                        assert(processed + src.remaining() =~= all);
                        lemma_total_len_concat(processed, src.remaining());
                        assert(total_len(processed) <= total_len(all));
                    }
                    total = total + chunk.len() as u64;
                },
                Ok(None) => {
                    proof {
                        assert(processed =~= all);
                    }
                    return Ok(total);
                },
                Err(e) => {
                    proof {
                        let fp = processed.flatten();
                        vstd::seq_lib::lemma_flatten_concat(processed, rem_before);
                        assert(body_bytes(all) =~= fp + rem_before.flatten());
                        assert(fp =~= body_bytes(all).subrange(0, fp.len() as int));
                        assert(fp.is_prefix_of(body_bytes(all)));
                    }
                    return Err(ConsumeError::Transport(e));
                },
            }
        }
    }

    /// Streams the body chunk by chunk into `callback`, handing each
    /// chunk the declared content length (zero when the server declared
    /// none — not a running count). An error from the callback aborts the
    /// stream. Consuming, as `bytes` is.
    pub fn write_with_callback<C: ChunkCallback>(&mut self, callback: &mut C) -> (r: Result<
        (),
        ConsumeError,
    >)
        ensures
            final(self).consumed(),
            Self::same_meta(*old(self), *final(self)),
            old(self).consumed() ==> r == Err::<(), ConsumeError>(ConsumeError::AlreadyConsumed)
                && final(callback).seen() == old(callback).seen(),
            !old(self).consumed() ==> match r {
                Ok(u) => final(callback).seen() == old(callback).seen() + old(
                    self,
                ).chunks().map_values(
                    (|c: Seq<u8>| (c, spec_expected_total(old(self).content_length))),
                ),
                Err(e) => (e matches ConsumeError::Transport(_) || e == ConsumeError::Sink) && (
                exists|cs: Seq<Seq<u8>>|
                    #![auto]
                    cs.is_prefix_of(old(self).chunks()) && final(callback).seen() == old(
                        callback,
                    ).seen() + cs.map_values(
                        (|c: Seq<u8>| (c, spec_expected_total(old(self).content_length))),
                    )),
            },
    {
        let expected: u64 = match self.content_length() {
            Some(n) => n,
            None => 0,
        };
        let mut src = match self.take_body() {
            Ok(s) => s,
            Err(e) => {
                return Err(e);
            },
        };
        let ghost all = src.remaining();
        let ghost mut processed: Seq<Seq<u8>> = Seq::empty();
        proof {
            let f = (|c: Seq<u8>| (c, spec_expected_total(old(self).content_length)));
            assert(old(callback).seen() + processed.map_values(f) =~= callback.seen());
        }
        loop
            invariant
                !old(self).consumed(),
                self.consumed(),
                Self::same_meta(*old(self), *self),
                all == old(self).chunks(),
                processed + src.remaining() =~= all,
                expected == spec_expected_total(old(self).content_length),
                callback.seen() == old(callback).seen() + processed.map_values(
                    (|c: Seq<u8>| (c, spec_expected_total(old(self).content_length))),
                ),
            decreases src.remaining().len(),
        {
            match src.next_chunk() {
                Ok(Some(chunk)) => {
                    if let Err(_) = callback.on_chunk(&chunk, expected) {
                        proof {
                            assert(processed =~= all.subrange(0, processed.len() as int));
                            assert(processed.is_prefix_of(all));
                        }
                        return Err(ConsumeError::Sink);
                    }
                    proof {
                        let f = (|c: Seq<u8>| (c, spec_expected_total(old(self).content_length)));
                        assert(callback.seen() =~= old(callback).seen() + processed.push(
                            chunk@,
                        ).map_values(f));
                        processed = processed.push(chunk@);
                        assert(processed + src.remaining() =~= all);
                    }
                },
                Ok(None) => {
                    proof {
                        assert(processed =~= all);
                    }
                    return Ok(());
                },
                Err(e) => {
                    proof {
                        assert(processed =~= all.subrange(0, processed.len() as int));
                        assert(processed.is_prefix_of(all));
                    }
                    return Err(ConsumeError::Transport(e));
                },
            }
        }
    }
}

/// Metadata reads are idempotent: what `status_code`, `version`,
/// `headers`, `cookies` and `content_length` return is a function of the
/// handle's metadata alone, every one of them borrows the handle
/// immutably, and every consuming operation ensures `same_meta`, so
/// metadata reads before and after any consumption return identical
/// results.
pub proof fn lemma_metadata_reads_idempotent<S: ChunkSource>(
    a: ResponseHandle<S>,
    b: ResponseHandle<S>,
)
    requires
        ResponseHandle::same_meta(a, b),
    ensures
        a.status == b.status,
        a.version == b.version,
        a.headers == b.headers,
        a.cookies == b.cookies,
        a.content_length == b.content_length,
{
}

/// What a charset decode yields for a label and body: the decoded text,
/// and whether any invalid sequence had to be replaced.
pub uninterp spec fn charset_decode(label: Seq<u8>, bytes: Seq<u8>) -> (Seq<char>, bool);

/// Whether a charset label names a known encoding.
pub uninterp spec fn charset_known(label: Seq<u8>) -> bool;

/// Relies on encoding_rs::Encoding::for_label, which is `None` exactly
/// for unknown labels, and encoding_rs::Encoding::decode, whose decoded
/// text and error flag are functions of the label and the bytes alone.
#[verifier::external_body]
fn decode_charset(label: &str, bytes: &Vec<u8>) -> (r: Option<(String, bool)>)
    ensures
        r is Some <==> charset_known(utf8_bytes(label@)),
        r matches Some(p) ==> p.0@ == charset_decode(utf8_bytes(label@), bytes@).0 && p.1
            == charset_decode(utf8_bytes(label@), bytes@).1,
{
    match encoding_rs::Encoding::for_label(label.as_bytes()) {
        Some(enc) => {
            let (cow, _, had_errors) = enc.decode(bytes);
            Some((cow.into_owned(), had_errors))
        },
        None => None,
    }
}

/// A chunk source over in-memory chunks, delivered in order; its reads
/// never fail.
#[derive(Debug)]
pub struct VecChunkSource {
    pub chunks: Vec<Vec<u8>>,
    pub pos: usize,
}

impl VecChunkSource {
    pub fn new(chunks: Vec<Vec<u8>>) -> (r: VecChunkSource)
        ensures
            r.remaining() == chunks@.map_values(|c: Vec<u8>| c@),
    {
        let r = VecChunkSource { chunks, pos: 0 };
        proof {
            assert(r.remaining() =~= r.chunks@.map_values(|c: Vec<u8>| c@));
        }
        r
    }
}

impl ChunkSource for VecChunkSource {
    open spec fn remaining(&self) -> Seq<Seq<u8>> {
        if self.pos <= self.chunks@.len() {
            self.chunks@.map_values(|c: Vec<u8>| c@).skip(self.pos as int)
        } else {
            Seq::empty()
        }
    }

    fn next_chunk(&mut self) -> (r: Result<Option<Vec<u8>>, TransportError>)
        ensures
            r is Ok,
    {
        if self.pos < self.chunks.len() {
            let c = self.chunks[self.pos].clone();
            proof {
                assert(c@ =~= self.chunks@[self.pos as int]@);
                assert(old(self).remaining()[0] == self.chunks@.map_values(|ch: Vec<u8>| ch@)[
                    self.pos as int
                ]);
            }
            self.pos = self.pos + 1;
            proof {
                assert(final(self).remaining() =~= old(self).remaining().skip(1));
            }
            Ok(Some(c))
        } else {
            Ok(None)
        }
    }
}

/// A chunk source whose first read fails, as a transport does when the
/// connection is lost mid-stream.
pub struct FailingChunkSource {
    pub error: TransportError,
}

impl ChunkSource for FailingChunkSource {
    open spec fn remaining(&self) -> Seq<Seq<u8>> {
        Seq::empty()
    }

    fn next_chunk(&mut self) -> (r: Result<Option<Vec<u8>>, TransportError>)
        ensures
            r == Err::<Option<Vec<u8>>, TransportError>(old(self).error),
    {
        Err(self.error)
    }
}

/// A sink collecting written bytes in memory; its writes never fail.
pub struct VecSink {
    pub data: Vec<u8>,
}

impl VecSink {
    pub fn new() -> (r: VecSink)
        ensures
            r.written() == Seq::<u8>::empty(),
    {
        VecSink { data: Vec::new() }
    }
}

impl ByteSink for VecSink {
    open spec fn written(&self) -> Seq<u8> {
        self.data@
    }

    fn write_chunk(&mut self, chunk: &Vec<u8>) -> (r: Result<(), SinkError>)
        ensures
            r is Ok,
    {
        self.data.extend_from_slice(chunk.as_slice());
        Ok(())
    }
}

/// A sink that rejects every write without accepting a byte.
pub struct RejectingSink {
}

impl ByteSink for RejectingSink {
    open spec fn written(&self) -> Seq<u8> {
        Seq::empty()
    }

    fn write_chunk(&mut self, chunk: &Vec<u8>) -> (r: Result<(), SinkError>)
        ensures
            r is Err,
    {
        proof {
            assert(self.written() == old(self).written() + chunk@.take(0)) by {
                assert(old(self).written() + chunk@.take(0) =~= Seq::<u8>::empty());
            }
        }
        Err(SinkError)
    }
}

/// A callback recording each chunk and the expected total it was given;
/// it never fails.
pub struct RecordingCallback {
    pub calls: Vec<(Vec<u8>, u64)>,
}

impl RecordingCallback {
    pub fn new() -> (r: RecordingCallback)
        ensures
            r.seen() == Seq::<(Seq<u8>, u64)>::empty(),
    {
        let r = RecordingCallback { calls: Vec::new() };
        proof {
            assert(r.seen() =~= Seq::<(Seq<u8>, u64)>::empty());
        }
        r
    }
}

impl ChunkCallback for RecordingCallback {
    open spec fn seen(&self) -> Seq<(Seq<u8>, u64)> {
        self.calls@.map_values(|p: (Vec<u8>, u64)| (p.0@, p.1))
    }

    fn on_chunk(&mut self, chunk: &Vec<u8>, expected_total: u64) -> (r: Result<(), SinkError>)
        ensures
            r is Ok,
    {
        self.calls.push((chunk.clone(), expected_total));
        proof {
            assert(final(self).seen() =~= old(self).seen().push((chunk@, expected_total)));
        }
        Ok(())
    }
}

} // verus!
