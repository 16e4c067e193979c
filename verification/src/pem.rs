//! The server's certificate and key files.

use vstd::prelude::*;

verus! {

/// What kind of failure a [`LoadError`] is.
#[derive(Debug, Clone, Copy, PartialEq, Eq)]
pub enum LoadErrorKind {
    /// None that a caller could tell from another.
    Other,
}

/// A failure to load a file.
#[derive(Debug, PartialEq, Eq)]
pub struct LoadError {
    pub kind: LoadErrorKind,
    pub message: String,
}

/// A failure with a message of its own.
pub fn error(err: String) -> (e: LoadError)
    ensures
        e.kind == LoadErrorKind::Other,
        e.message == err,
{
    LoadError { kind: LoadErrorKind::Other, message: err }
}

/// A failure of the standard library's I/O. It is opaque: callers learn only that
/// there was one.
#[verifier::external_type_specification]
#[verifier::external_body]
pub struct ExIoError(std::io::Error);

/// What `rustls_pemfile::certs` finds in a file: the contents of its certificate
/// sections in order, or `None` where the file is no PEM file.
pub uninterp spec fn pem_certs(pem: Seq<u8>) -> Option<Seq<Seq<u8>>>;

/// What `rustls_pemfile::pkcs8_private_keys` finds in a file: the contents of its
/// PKCS #8 key sections in order, or `None` where the file is no PEM file.
pub uninterp spec fn pem_keys(pem: Seq<u8>) -> Option<Seq<Seq<u8>>>;

/// `rustls_pemfile::certs` on a whole file. Reading from memory cannot fail, so
/// the result depends on the bytes alone.
#[verifier::external_body]
fn parse_certs(pem: &[u8]) -> (r: Result<Vec<Vec<u8>>, std::io::Error>)
    ensures
        r is Ok <==> pem_certs(pem@) is Some,
        r matches Ok(certs) ==> Some(certs.deep_view()) == pem_certs(pem@),
{
    let mut reader = pem;
    rustls_pemfile::certs(&mut reader)
}

/// `rustls_pemfile::pkcs8_private_keys` on a whole file. Reading from memory
/// cannot fail, so the result depends on the bytes alone.
#[verifier::external_body]
fn parse_keys(pem: &[u8]) -> (r: Result<Vec<Vec<u8>>, std::io::Error>)
    ensures
        r is Ok <==> pem_keys(pem@) is Some,
        r matches Ok(keys) ==> Some(keys.deep_view()) == pem_keys(pem@),
{
    let mut reader = pem;
    rustls_pemfile::pkcs8_private_keys(&mut reader)
}

/// The certificates that were found, all of them; an error if the file was none.
pub fn all_certs(found: Option<Vec<Vec<u8>>>) -> (r: Result<Vec<Vec<u8>>, LoadError>)
    ensures
        match found {
            Some(certs) => r == Ok::<Vec<Vec<u8>>, LoadError>(certs),
            None => r matches Err(e) && e.kind == LoadErrorKind::Other && e.message@
                == "failed to load certificate"@,
        },
{
    match found {
        Some(certs) => Ok(certs),
        None => Err(error("failed to load certificate".to_owned())),
    }
}

/// The key that was found, which must be the only one.
pub fn only_key(found: Option<Vec<Vec<u8>>>) -> (r: Result<Vec<u8>, LoadError>)
    ensures
        match found {
            Some(keys) => if keys@.len() == 1 {
                r matches Ok(key) && key@ == keys@[0]@
            } else {
                r matches Err(e) && e.kind == LoadErrorKind::Other && e.message@
                    == "expected a single private key"@
            },
            None => r matches Err(e) && e.kind == LoadErrorKind::Other && e.message@
                == "failed to load private key"@,
        },
{
    match found {
        Some(keys) => {
            if keys.len() != 1 {
                Err(error("expected a single private key".to_owned()))
            } else {
                Ok(keys[0].clone())
            }
        },
        None => Err(error("failed to load private key".to_owned())),
    }
}

/// The certificates in a PEM file.
pub fn load_certs(pem: &[u8]) -> (r: Result<Vec<Vec<u8>>, LoadError>)
    ensures
        match pem_certs(pem@) {
            Some(certs) => r matches Ok(found) && found.deep_view() == certs,
            None => r matches Err(e) && e.kind == LoadErrorKind::Other && e.message@
                == "failed to load certificate"@,
        },
{
    match parse_certs(pem) {
        Ok(certs) => all_certs(Some(certs)),
        Err(_) => all_certs(None),
    }
}

/// The private key in a PEM file, which must be the only one there.
pub fn load_private_key(pem: &[u8]) -> (r: Result<Vec<u8>, LoadError>)
    ensures
        match pem_keys(pem@) {
            Some(keys) => if keys.len() == 1 {
                r matches Ok(key) && key@ == keys[0]
            } else {
                r matches Err(e) && e.kind == LoadErrorKind::Other && e.message@
                    == "expected a single private key"@
            },
            None => r matches Err(e) && e.kind == LoadErrorKind::Other && e.message@
                == "failed to load private key"@,
        },
{
    match parse_keys(pem) {
        Ok(keys) => {
            proof {
                if keys@.len() == 1 {
                    assert(keys.deep_view()[0] == keys@[0].deep_view());
                    assert(keys@[0].deep_view() =~= keys@[0]@);
                }
            }
            only_key(Some(keys))
        },
        Err(_) => only_key(None),
    }
}

} // verus!
