use rqpy::errors::AssemblyError;
use rqpy::multipart::{assemble, EncodeFlags, MultipartSpec, PartSpec};

fn pairs(items: &[(&str, &str)]) -> Vec<(String, String)> {
    items.iter().map(|(a, b)| (a.to_string(), b.to_string())).collect()
}

#[test]
fn text_field_order_is_kept() {
    let spec = MultipartSpec {
        text: pairs(&[("a", "1"), ("b", "2")]),
        parts: Vec::new(),
        encode: EncodeFlags::off(),
    };
    let form = assemble(spec).unwrap();
    assert_eq!(form.text.len(), 2);
    assert_eq!(form.text[0].0, "a");
    assert_eq!(form.text[0].1, "1");
    assert_eq!(form.text[1].0, "b");
    assert_eq!(form.text[1].1, "2");
}

#[test]
fn duplicate_text_names_all_appear() {
    let spec = MultipartSpec {
        text: pairs(&[("a", "1"), ("a", "2")]),
        parts: Vec::new(),
        encode: EncodeFlags::off(),
    };
    let form = assemble(spec).unwrap();
    assert_eq!(form.text.len(), 2);
    assert_eq!(form.text[0].1, "1");
    assert_eq!(form.text[1].1, "2");
}

#[test]
fn binary_parts_carry_through() {
    let spec = MultipartSpec {
        text: Vec::new(),
        parts: vec![(
            "payload".to_string(),
            PartSpec {
                bytes: vec![1, 2, 3],
                mime: Some("application/octet-stream".to_string()),
                filename: Some("blob.bin".to_string()),
            },
        )],
        encode: EncodeFlags::off(),
    };
    let form = assemble(spec).unwrap();
    assert_eq!(form.parts.len(), 1);
    assert_eq!(form.parts[0].0, "payload");
    assert_eq!(form.parts[0].1.bytes, vec![1, 2, 3]);
    assert_eq!(form.parts[0].1.mime.as_deref(), Some("application/octet-stream"));
    assert_eq!(form.parts[0].1.filename.as_deref(), Some("blob.bin"));
}

#[test]
fn invalid_mime_type_fails() {
    let spec = MultipartSpec {
        text: Vec::new(),
        parts: vec![(
            "payload".to_string(),
            PartSpec { bytes: vec![0], mime: Some("not a mime".to_string()), filename: None },
        )],
        encode: EncodeFlags::off(),
    };
    assert_eq!(assemble(spec).unwrap_err(), AssemblyError::InvalidMimeType);
}

#[test]
fn encode_flags_are_independent_and_kept() {
    let spec = MultipartSpec {
        text: Vec::new(),
        parts: Vec::new(),
        encode: EncodeFlags { path_segment: true, attr_char: true, noop: false },
    };
    let form = assemble(spec).unwrap();
    assert!(form.encode.path_segment);
    assert!(form.encode.attr_char);
    assert!(!form.encode.noop);
}
