use rqpy::errors::{ConsumeError, TransportError};
use rqpy::headers::HeaderTable;
use rqpy::request::HttpVersion;
use rqpy::response::{
    FailingChunkSource, RecordingCallback, RejectingSink, ResponseHandle, VecChunkSource, VecSink,
};
use rqpy::transport::{execute, wrap_response, RawResponse, ScriptedTransport};

fn make_raw(
    chunks: Vec<Vec<u8>>,
    content_length: Option<u64>,
) -> RawResponse<VecChunkSource> {
    let mut headers = HeaderTable::new();
    headers.insert("Content-Type", "text/plain");
    headers.insert("X-Request-Id", "seven");
    RawResponse {
        status: 200,
        version: HttpVersion::Http11,
        headers,
        cookies: vec!["session=1".to_string()],
        content_length,
        body: VecChunkSource::new(chunks),
    }
}

fn make_handle(
    chunks: Vec<Vec<u8>>,
    content_length: Option<u64>,
) -> ResponseHandle<VecChunkSource> {
    wrap_response(make_raw(chunks, content_length))
}

#[test]
fn bytes_returns_whole_body() {
    let mut h = make_handle(vec![b"he".to_vec(), b"llo".to_vec()], Some(5));
    assert_eq!(h.bytes().unwrap(), b"hello".to_vec());
}

#[test]
fn empty_body_buffers_and_streams_to_nothing() {
    let mut h = make_handle(Vec::new(), Some(0));
    assert_eq!(h.bytes().unwrap(), Vec::<u8>::new());
    let mut h2 = make_handle(Vec::new(), Some(0));
    let mut sink = VecSink::new();
    assert_eq!(h2.write_bytes(&mut sink).unwrap(), 0);
    assert!(sink.data.is_empty());
    let mut h3 = make_handle(vec![Vec::new()], Some(0));
    assert_eq!(h3.bytes().unwrap(), Vec::<u8>::new());
}

#[test]
fn second_bytes_fails_already_consumed() {
    let mut h = make_handle(vec![b"data".to_vec()], Some(4));
    assert!(h.bytes().is_ok());
    assert_eq!(h.bytes().unwrap_err(), ConsumeError::AlreadyConsumed);
    // metadata stays readable after consumption
    assert_eq!(h.status_code(), 200);
    assert_eq!(h.content_length(), Some(4));
    assert_eq!(h.cookies()[0], "session=1");
}

#[test]
fn metadata_reads_are_idempotent() {
    let mut h = make_handle(vec![b"x".to_vec()], Some(1));
    let before: Vec<(String, String)> = h.headers().entries.clone();
    let _ = h.status_code();
    let _ = h.content_length();
    let middle: Vec<(String, String)> = h.headers().entries.clone();
    assert_eq!(before, middle);
    let _ = h.bytes();
    let after: Vec<(String, String)> = h.headers().entries.clone();
    assert_eq!(before, after);
    assert_eq!(h.version(), HttpVersion::Http11);
}

#[test]
fn streamed_total_equals_buffered_length() {
    let chunks = vec![b"ab".to_vec(), b"cde".to_vec(), Vec::new(), b"f".to_vec()];
    let mut buffered = make_handle(chunks.clone(), Some(6));
    let mut streamed = make_handle(chunks, Some(6));
    let body = buffered.bytes().unwrap();
    let mut sink = VecSink::new();
    let total = streamed.write_bytes(&mut sink).unwrap();
    assert_eq!(total as usize, body.len());
    assert_eq!(sink.data, body);
}

#[test]
fn write_bytes_second_call_fails() {
    let mut h = make_handle(vec![b"xy".to_vec()], Some(2));
    let mut sink = VecSink::new();
    assert_eq!(h.write_bytes(&mut sink).unwrap(), 2);
    assert_eq!(
        h.write_bytes(&mut sink).unwrap_err(),
        ConsumeError::AlreadyConsumed
    );
    assert_eq!(sink.data, b"xy".to_vec());
}

#[test]
fn rejecting_sink_aborts_stream() {
    let mut h = make_handle(vec![b"xy".to_vec()], Some(2));
    let mut sink = RejectingSink {};
    assert_eq!(h.write_bytes(&mut sink).unwrap_err(), ConsumeError::Sink);
    // the body is consumed even though the stream aborted early
    let mut ok_sink = VecSink::new();
    assert_eq!(
        h.write_bytes(&mut ok_sink).unwrap_err(),
        ConsumeError::AlreadyConsumed
    );
}

#[test]
fn callback_sees_chunks_with_declared_total() {
    let mut h = make_handle(vec![b"ab".to_vec(), b"c".to_vec()], Some(3));
    let mut cb = RecordingCallback::new();
    h.write_with_callback(&mut cb).unwrap();
    assert_eq!(cb.calls.len(), 2);
    assert_eq!(cb.calls[0], (b"ab".to_vec(), 3));
    assert_eq!(cb.calls[1], (b"c".to_vec(), 3));
}

#[test]
fn callback_total_is_zero_without_content_length() {
    let mut h = make_handle(vec![b"ab".to_vec()], None);
    let mut cb = RecordingCallback::new();
    h.write_with_callback(&mut cb).unwrap();
    assert_eq!(cb.calls[0], (b"ab".to_vec(), 0));
}

#[test]
fn text_decodes_utf8() {
    let mut h = make_handle(vec!["héllo".as_bytes().to_vec()], None);
    assert_eq!(h.text_with_charset("utf-8").unwrap(), "héllo");
}

#[test]
fn text_rejects_invalid_utf8() {
    let mut h = make_handle(vec![vec![0xff, 0xfe, 0xfd]], None);
    assert_eq!(h.text_with_charset("utf-8").unwrap_err(), ConsumeError::Decode);
}

#[test]
fn text_decodes_latin1() {
    let mut h = make_handle(vec![vec![0xe9]], None);
    assert_eq!(h.text_with_charset("latin1").unwrap(), "é");
}

#[test]
fn text_rejects_unknown_charset() {
    let mut h = make_handle(vec![b"abc".to_vec()], None);
    assert_eq!(
        h.text_with_charset("no-such-charset").unwrap_err(),
        ConsumeError::Decode
    );
}

#[test]
fn text_is_consuming_too() {
    let mut h = make_handle(vec![b"abc".to_vec()], None);
    assert!(h.text_with_charset("utf-8").is_ok());
    assert_eq!(
        h.text_with_charset("utf-8").unwrap_err(),
        ConsumeError::AlreadyConsumed
    );
}

#[test]
fn transport_failure_surfaces_and_consumes() {
    let mut h = wrap_response(RawResponse {
        status: 200,
        version: HttpVersion::Http11,
        headers: HeaderTable::new(),
        cookies: Vec::new(),
        content_length: None,
        body: FailingChunkSource { error: TransportError::Timeout },
    });
    assert_eq!(
        h.bytes().unwrap_err(),
        ConsumeError::Transport(TransportError::Timeout)
    );
    assert_eq!(h.bytes().unwrap_err(), ConsumeError::AlreadyConsumed);
    assert_eq!(h.status_code(), 200);
}

#[test]
fn executor_wraps_transport_response() {
    let cfg = rqpy::config::ClientConfig::build(rqpy::config::ClientOptions::none()).unwrap();
    let desc = rqpy::request::RequestDescriptor::build(
        &cfg,
        "get",
        "http://example.com/",
        rqpy::request::RequestOptions::none(),
    )
    .unwrap();
    let mut t = ScriptedTransport::new(make_raw(vec![b"body".to_vec()], Some(4)));
    let mut h = execute(&mut t, &desc).unwrap();
    assert_eq!(h.status_code(), 200);
    assert_eq!(h.content_length(), Some(4));
    assert_eq!(h.bytes().unwrap(), b"body".to_vec());
    // the one response is spent: a second submission fails verbatim
    assert_eq!(execute(&mut t, &desc).unwrap_err(), TransportError::Connect);
}
