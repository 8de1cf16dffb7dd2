use rqpy::config::{ClientConfig, ClientOptions};
use rqpy::errors::{AssemblyError, BuildError};
use rqpy::multipart::{EncodeFlags, MultipartSpec, PartSpec};
use rqpy::request::{
    version_from_int, Auth, HttpVersion, RequestBody, RequestDescriptor, RequestOptions,
};

fn pairs(items: &[(&str, &str)]) -> Vec<(String, String)> {
    items.iter().map(|(a, b)| (a.to_string(), b.to_string())).collect()
}

fn empty_cfg() -> ClientConfig {
    ClientConfig::build(ClientOptions::none()).unwrap()
}

const URL: &str = "http://example.com/path";

#[test]
fn method_is_uppercased() {
    let d = RequestDescriptor::build(&empty_cfg(), "get", URL, RequestOptions::none()).unwrap();
    assert_eq!(d.method, "GET");
    assert_eq!(d.url, URL);
}

#[test]
fn invalid_method_fails() {
    let r = RequestDescriptor::build(&empty_cfg(), "ge t", URL, RequestOptions::none());
    assert_eq!(r.unwrap_err(), BuildError::InvalidMethod);
    let r = RequestDescriptor::build(&empty_cfg(), "", URL, RequestOptions::none());
    assert_eq!(r.unwrap_err(), BuildError::InvalidMethod);
}

#[test]
fn version_three_maps_to_http2() {
    assert_eq!(version_from_int(3).unwrap(), HttpVersion::Http2);
    let opts = RequestOptions { version: Some(3), ..RequestOptions::none() };
    let d = RequestDescriptor::build(&empty_cfg(), "GET", URL, opts).unwrap();
    assert_eq!(d.version, Some(HttpVersion::Http2));
}

#[test]
fn version_five_is_unsupported() {
    assert_eq!(version_from_int(5).unwrap_err(), BuildError::UnsupportedHttpVersion);
    let opts = RequestOptions { version: Some(5), ..RequestOptions::none() };
    let r = RequestDescriptor::build(&empty_cfg(), "GET", URL, opts);
    assert_eq!(r.unwrap_err(), BuildError::UnsupportedHttpVersion);
}

#[test]
fn version_whole_mapping() {
    assert_eq!(version_from_int(0).unwrap(), HttpVersion::Http09);
    assert_eq!(version_from_int(1).unwrap(), HttpVersion::Http10);
    assert_eq!(version_from_int(2).unwrap(), HttpVersion::Http11);
    assert_eq!(version_from_int(4).unwrap(), HttpVersion::Http3);
    assert_eq!(version_from_int(-1).unwrap_err(), BuildError::UnsupportedHttpVersion);
}

#[test]
fn malformed_url_fails() {
    let r = RequestDescriptor::build(&empty_cfg(), "GET", "not a url", RequestOptions::none());
    assert_eq!(r.unwrap_err(), BuildError::MalformedRequest);
    // parses as a URL but carries no host, so it cannot be requested
    let r = RequestDescriptor::build(&empty_cfg(), "GET", "mailto:someone", RequestOptions::none());
    assert_eq!(r.unwrap_err(), BuildError::MalformedRequest);
}

#[test]
fn bearer_wins_over_basic() {
    let opts = RequestOptions {
        usr: Some("user".to_string()),
        pwd: Some("secret".to_string()),
        token: Some("tok".to_string()),
        ..RequestOptions::none()
    };
    let d = RequestDescriptor::build(&empty_cfg(), "GET", URL, opts).unwrap();
    match d.auth {
        Auth::Bearer { token } => assert_eq!(token, "tok"),
        _ => panic!("expected bearer auth"),
    }
}

#[test]
fn basic_auth_keeps_optional_password() {
    let opts = RequestOptions { usr: Some("user".to_string()), ..RequestOptions::none() };
    let d = RequestDescriptor::build(&empty_cfg(), "GET", URL, opts).unwrap();
    match d.auth {
        Auth::Basic { usr, pwd } => {
            assert_eq!(usr, "user");
            assert_eq!(pwd, None);
        },
        _ => panic!("expected basic auth"),
    }
}

#[test]
fn form_wins_over_raw_body_and_multipart() {
    let opts = RequestOptions {
        body: Some(vec![1, 2, 3]),
        multipart: Some(MultipartSpec {
            text: pairs(&[("a", "1")]),
            parts: Vec::new(),
            encode: EncodeFlags::off(),
        }),
        form: Some(pairs(&[("k", "v")])),
        ..RequestOptions::none()
    };
    let d = RequestDescriptor::build(&empty_cfg(), "POST", URL, opts).unwrap();
    match d.body {
        RequestBody::Form(f) => assert_eq!(f, pairs(&[("k", "v")])),
        _ => panic!("expected form body"),
    }
}

#[test]
fn multipart_wins_over_raw_body() {
    let opts = RequestOptions {
        body: Some(vec![1, 2, 3]),
        multipart: Some(MultipartSpec {
            text: pairs(&[("a", "1")]),
            parts: Vec::new(),
            encode: EncodeFlags::off(),
        }),
        ..RequestOptions::none()
    };
    let d = RequestDescriptor::build(&empty_cfg(), "POST", URL, opts).unwrap();
    match d.body {
        RequestBody::Multipart(mf) => assert_eq!(mf.text, pairs(&[("a", "1")])),
        _ => panic!("expected multipart body"),
    }
}

#[test]
fn raw_body_kept_when_alone() {
    let opts = RequestOptions { body: Some(vec![9, 8]), ..RequestOptions::none() };
    let d = RequestDescriptor::build(&empty_cfg(), "PUT", URL, opts).unwrap();
    match d.body {
        RequestBody::Raw(b) => assert_eq!(b, vec![9, 8]),
        _ => panic!("expected raw body"),
    }
}

#[test]
fn bad_multipart_mime_fails_even_with_form() {
    // the multipart option is examined before the form option is applied
    let opts = RequestOptions {
        multipart: Some(MultipartSpec {
            text: Vec::new(),
            parts: vec![(
                "p".to_string(),
                PartSpec { bytes: vec![0], mime: Some("broken mime".to_string()), filename: None },
            )],
            encode: EncodeFlags::off(),
        }),
        form: Some(pairs(&[("k", "v")])),
        ..RequestOptions::none()
    };
    let r = RequestDescriptor::build(&empty_cfg(), "POST", URL, opts);
    assert_eq!(r.unwrap_err(), BuildError::Assembly(AssemblyError::InvalidMimeType));
}

#[test]
fn query_order_and_repeats_are_kept() {
    let opts = RequestOptions {
        query: Some(pairs(&[("k", "1"), ("k", "2"), ("a", "x")])),
        ..RequestOptions::none()
    };
    let d = RequestDescriptor::build(&empty_cfg(), "GET", URL, opts).unwrap();
    assert_eq!(d.query, pairs(&[("k", "1"), ("k", "2"), ("a", "x")]));
}

#[test]
fn request_headers_extend_and_override_defaults() {
    let cfg = ClientConfig::build(ClientOptions {
        headers: Some(pairs(&[("X-Base", "1"), ("X-Override", "a")])),
        ..ClientOptions::none()
    })
    .unwrap();
    let opts = RequestOptions {
        headers: Some(pairs(&[("x-override", "b"), ("X-New", "2")])),
        ..RequestOptions::none()
    };
    let d = RequestDescriptor::build(&cfg, "GET", URL, opts).unwrap();
    let names: Vec<&str> = d.headers.entries.iter().map(|e| e.0.as_str()).collect();
    let values: Vec<&str> = d.headers.entries.iter().map(|e| e.1.as_str()).collect();
    assert_eq!(names, vec!["x-base", "x-override", "x-new"]);
    assert_eq!(values, vec!["1", "b", "2"]);
}

#[test]
fn invalid_request_header_fails() {
    let opts = RequestOptions {
        headers: Some(pairs(&[("bad name", "v")])),
        ..RequestOptions::none()
    };
    let r = RequestDescriptor::build(&empty_cfg(), "GET", URL, opts);
    assert_eq!(r.unwrap_err(), BuildError::InvalidHeaderValue);
}

#[test]
fn timeout_override_beats_client_default() {
    let cfg = ClientConfig::build(ClientOptions {
        timeout: Some(100),
        ..ClientOptions::none()
    })
    .unwrap();
    let d = RequestDescriptor::build(&cfg, "GET", URL, RequestOptions::none()).unwrap();
    assert_eq!(d.timeout, Some(100));
    let opts = RequestOptions { timeout: Some(5), ..RequestOptions::none() };
    let d = RequestDescriptor::build(&cfg, "GET", URL, opts).unwrap();
    assert_eq!(d.timeout, Some(5));
}
