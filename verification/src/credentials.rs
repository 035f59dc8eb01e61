//! The server's TLS certificate and private key, read from PEM with OpenSSL.
use vstd::prelude::*;

verus! {

#[verifier::external_type_specification]
#[verifier::external_body]
pub struct ExX509(openssl::x509::X509);

#[verifier::external_type_specification]
#[verifier::external_body]
#[verifier::reject_recursive_types(T)]
pub struct ExPKey<T>(openssl::pkey::PKey<T>);

#[verifier::external_type_specification]
#[verifier::external_body]
pub struct ExPrivate(openssl::pkey::Private);

#[verifier::external_type_specification]
#[verifier::external_body]
pub struct ExErrorStack(openssl::error::ErrorStack);

/// The certificate and private key the server presents.
pub type Credentials = (openssl::x509::X509, openssl::pkey::PKey<openssl::pkey::Private>);

/// Why the server could not start.
#[derive(Debug, Clone, Copy, PartialEq, Eq, Structural)]
pub enum StartupError {
    /// The certificate file could not be read.
    CannotReadCrt,
    /// The certificate file holds no PEM certificate OpenSSL accepts.
    CannotExtractCrt,
    /// The key file could not be read.
    CannotReadKey,
    /// The key file holds no PEM private key OpenSSL accepts.
    CannotExtractKey,
}

/// Calls `openssl::x509::X509::from_pem`. It panics on input longer than
/// `c_int::MAX` bytes (an assertion in `MemBioSlice::new`), which the
/// precondition leaves out. Nothing is claimed of the outcome: what OpenSSL
/// accepts depends on the C library linked in.
#[verifier::external_body]
pub(crate) fn parse_certificate(pem: &[u8]) -> (r: Result<openssl::x509::X509, openssl::error::ErrorStack>)
    requires
        pem@.len() <= i32::MAX,
{
    openssl::x509::X509::from_pem(pem)
}

/// Calls `openssl::pkey::PKey::private_key_from_pem`. It panics on input
/// longer than `c_int::MAX` bytes, which the precondition leaves out. Nothing
/// is claimed of the outcome, for the same reason as for certificates.
#[verifier::external_body]
pub(crate) fn parse_private_key(pem: &[u8]) -> (r: Result<
    openssl::pkey::PKey<openssl::pkey::Private>,
    openssl::error::ErrorStack,
>)
    requires
        pem@.len() <= i32::MAX,
{
    openssl::pkey::PKey::private_key_from_pem(pem)
}

/// Reads the certificate from the contents of the certificate file.
pub fn read_certificate(pem: &[u8]) -> (r: Result<openssl::x509::X509, StartupError>)
    requires
        pem@.len() <= i32::MAX,
    ensures
        r matches Err(e) ==> e == StartupError::CannotExtractCrt,
{
    match parse_certificate(pem) {
        Ok(crt) => Ok(crt),
        Err(_) => Err(StartupError::CannotExtractCrt),
    }
}

/// Reads the private key from the contents of the key file.
pub fn read_private_key(pem: &[u8]) -> (r: Result<openssl::pkey::PKey<openssl::pkey::Private>, StartupError>)
    requires
        pem@.len() <= i32::MAX,
    ensures
        r matches Err(e) ==> e == StartupError::CannotExtractKey,
{
    match parse_private_key(pem) {
        Ok(key) => Ok(key),
        Err(_) => Err(StartupError::CannotExtractKey),
    }
}

/// Combines the two readings in the order the server makes them: the key is
/// only read (`key` is `Some`) once the certificate was; the first failure is
/// the one reported, and a key that was never read counts as unreadable.
pub fn credentials(
    crt: Result<openssl::x509::X509, StartupError>,
    key: Option<Result<openssl::pkey::PKey<openssl::pkey::Private>, StartupError>>,
) -> (r: Result<Credentials, StartupError>)
    ensures
        crt matches Err(e) ==> r == Err::<Credentials, StartupError>(e),
        key matches Some(Err(e)) ==> (crt is Ok ==> r == Err::<Credentials, StartupError>(e)),
        crt is Ok && key is None ==> r == Err::<Credentials, StartupError>(StartupError::CannotReadKey),
        r is Ok <==> (crt is Ok && key matches Some(Ok(_))),
        r matches Ok(p) ==> crt == Ok::<openssl::x509::X509, StartupError>(p.0) && key == Some(
            Ok::<openssl::pkey::PKey<openssl::pkey::Private>, StartupError>(p.1),
        ),
{
    match crt {
        Err(e) => Err(e),
        Ok(c) => match key {
            Some(Ok(k)) => Ok((c, k)),
            Some(Err(e)) => Err(e),
            None => Err(StartupError::CannotReadKey),
        },
    }
}

} // verus!
