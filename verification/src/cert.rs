use vstd::prelude::*;
use vstd::slice::slice_to_vec;

use crate::errors::ConfigError;

verus! {

/// The encoding a trust anchor was supplied in.
#[derive(Clone, Copy, Debug, PartialEq, Eq, Structural)]
pub enum CertFormat {
    Der,
    Pem,
}

/// A trust-anchor certificate: the raw bytes and their encoding, checked
/// here at construction. The bytes are carried verbatim to the transport,
/// which installs them when the client is built.
#[derive(Clone, Debug)]
pub struct Cert {
    pub format: CertFormat,
    pub bytes: Vec<u8>,
}

/// Whether the bytes parse as one DER-encoded X.509 certificate.
pub uninterp spec fn der_parses(der: Seq<u8>) -> bool;

/// Relies on rustls::RootCertStore::add: it fails exactly when its
/// argument does not parse as a DER-encoded X.509 certificate, and the
/// outcome is a function of the bytes alone. This is the same parse the
/// transport performs when it installs a DER anchor at client build time.
#[verifier::external_body]
fn check_der(der: &[u8]) -> (r: bool)
    ensures
        r == der_parses(der@),
{
    let mut store = rustls::RootCertStore::empty();
    store.add(rustls::pki_types::CertificateDer::from(der.to_vec())).is_ok()
}

/// Whether the PEM sections of the given bytes parse as certificates.
pub uninterp spec fn pem_bundle_parses(pem: Seq<u8>) -> bool;

/// Relies on reqwest::Certificate::from_pem_bundle: it fails exactly when
/// the PEM sections of its input cannot be read as certificates, and the
/// outcome is a function of the bytes alone. Input holding no PEM section
/// at all — empty bytes included — parses vacuously to zero certificates
/// and is accepted; the transport applies the same framing parse when it
/// installs a PEM anchor, so the two agree.
#[verifier::external_body]
fn check_pem(pem: &[u8]) -> (r: bool)
    ensures
        r == pem_bundle_parses(pem@),
{
    reqwest::Certificate::from_pem_bundle(pem).is_ok()
}

impl Cert {
    /// Creates a DER trust anchor holding exactly the given bytes; fails
    /// when the bytes do not parse as a certificate. Pure parsing, no I/O.
    pub fn from_der(der: &[u8]) -> (r: Result<Cert, ConfigError>)
        ensures
            r is Ok <==> der_parses(der@),
            r matches Ok(c) ==> c.format == CertFormat::Der && c.bytes@ == der@,
            r matches Err(e) ==> e == ConfigError::InvalidCertificateEncoding,
    {
        if check_der(der) {
            Ok(Cert { format: CertFormat::Der, bytes: slice_to_vec(der) })
        } else {
            Err(ConfigError::InvalidCertificateEncoding)
        }
    }

    /// Creates a PEM trust anchor holding exactly the given bytes; fails
    /// when the PEM sections cannot be parsed as certificates. Pure
    /// parsing, no I/O.
    pub fn from_pem(pem: &[u8]) -> (r: Result<Cert, ConfigError>)
        ensures
            r is Ok <==> pem_bundle_parses(pem@),
            r matches Ok(c) ==> c.format == CertFormat::Pem && c.bytes@ == pem@,
            r matches Err(e) ==> e == ConfigError::InvalidCertificateEncoding,
    {
        if check_pem(pem) {
            Ok(Cert { format: CertFormat::Pem, bytes: slice_to_vec(pem) })
        } else {
            Err(ConfigError::InvalidCertificateEncoding)
        }
    }
}

} // verus!
