use vstd::prelude::*;

use crate::errors::AssemblyError;

verus! {

/// One binary part of a multipart form: its bytes are required, the MIME
/// type and filename are optional. A filename passes through unescaped;
/// boundary and encoding rules are the transport's.
#[derive(Debug)]
pub struct PartSpec {
    pub bytes: Vec<u8>,
    pub mime: Option<String>,
    pub filename: Option<String>,
}

/// Independent percent-encoding toggles for serialized field names and
/// filenames; all default to off, and setting several is cumulative.
#[derive(Clone, Copy, Debug, PartialEq, Eq, Structural)]
pub struct EncodeFlags {
    pub path_segment: bool,
    pub attr_char: bool,
    pub noop: bool,
}

impl EncodeFlags {
    pub fn off() -> (r: EncodeFlags)
        ensures
            !r.path_segment && !r.attr_char && !r.noop,
    {
        EncodeFlags { path_segment: false, attr_char: false, noop: false }
    }
}

/// The caller's multipart specification: named text fields and named
/// binary parts, each in order, plus the encode toggles.
#[derive(Debug)]
pub struct MultipartSpec {
    pub text: Vec<(String, String)>,
    pub parts: Vec<(String, PartSpec)>,
    pub encode: EncodeFlags,
}

/// An assembled multipart body. Text fields keep the order they were
/// given in, and duplicate field names all appear: unlike header merging,
/// multipart permits repeated names, so nothing is collapsed. Serialized
/// field order is the text fields followed by the binary parts.
#[derive(Debug)]
pub struct MultipartForm {
    pub text: Vec<(String, String)>,
    pub parts: Vec<(String, PartSpec)>,
    pub encode: EncodeFlags,
}

/// Whether a string parses as a media type.
pub uninterp spec fn mime_parses(m: Seq<char>) -> bool;

/// Relies on reqwest::multipart::Part::mime_str: it fails exactly when its
/// argument does not parse as a media type, and the outcome is a function
/// of the string alone.
#[verifier::external_body]
fn check_mime(m: &str) -> (r: bool)
    ensures
        r == mime_parses(m@),
{
    reqwest::multipart::Part::bytes(Vec::new()).mime_str(m).is_ok()
}

/// Every declared MIME type parses as a media type.
pub open spec fn spec_parts_ok(parts: Seq<(String, PartSpec)>) -> bool {
    forall|i: int|
        0 <= i < parts.len() ==> (match (#[trigger] parts[i]).1.mime {
            Some(m) => mime_parses(m@),
            None => true,
        })
}

/// Assembles a multipart form from its specification: pure data assembly,
/// failing exactly when some part declares an invalid MIME type.
pub fn assemble(input: MultipartSpec) -> (r: Result<MultipartForm, AssemblyError>)
    ensures
        r is Ok <==> spec_parts_ok(input.parts@),
        r matches Ok(f) ==> f.text == input.text && f.parts == input.parts && f.encode
            == input.encode,
        r matches Err(e) ==> e == AssemblyError::InvalidMimeType,
{
    let n = input.parts.len();
    let mut i: usize = 0;
    while i < n
        invariant
            n == input.parts@.len(),
            i <= n,
            forall|j: int|
                0 <= j < i ==> (match (#[trigger] input.parts@[j]).1.mime {
                    Some(m) => mime_parses(m@),
                    None => true,
                }),
        decreases n - i,
    {
        match &input.parts[i].1.mime {
            Some(m) => {
                if !check_mime(m.as_str()) {
                    return Err(AssemblyError::InvalidMimeType);
                }
            },
            None => {},
        }
        i += 1;
    }
    Ok(MultipartForm { text: input.text, parts: input.parts, encode: input.encode })
}

} // verus!
