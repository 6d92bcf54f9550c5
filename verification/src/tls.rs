//! How the server listens, and what it takes from PEM files when it
//! listens with TLS.

use vstd::prelude::*;

verus! {

/// How the server is to listen.
#[derive(Debug)]
pub enum Listen {
    /// Plain HTTP.
    Plain,
    /// TLS, with the paths of the certificate chain and of the private key.
    Tls { cert_chain: String, private_key: String },
}

/// A TLS setting that stands alone.
#[derive(Clone, Copy, Debug, PartialEq, Eq, Structural)]
pub enum SettingError {
    /// A certificate chain is set and no private key.
    KeyMissing,
    /// A private key is set and no certificate chain.
    ChainMissing,
}

impl SettingError {
    /// The name of the setting under which the error is reported.
    pub fn setting(&self) -> (name: &'static str)
        ensures
            name@ == (match *self {
                SettingError::KeyMissing => "ssl_cert_chain"@,
                SettingError::ChainMissing => "ssl_cert_key"@,
            }),
    {
        match self {
            SettingError::KeyMissing => "ssl_cert_chain",
            SettingError::ChainMissing => "ssl_cert_key",
        }
    }
}

/// Why no TLS material could be taken from the PEM files.
#[derive(Clone, Copy, Debug, PartialEq, Eq, Structural)]
pub enum PemError {
    /// The certificate file is no well-formed PEM.
    BadCertificates,
    /// The key file holds neither a PKCS#8 nor an RSA private key.
    NoPrivateKey,
}

/// Certificates and the private key, each in DER.
#[derive(Debug)]
pub struct TlsMaterial {
    pub certificates: Vec<Vec<u8>>,
    pub private_key: Vec<u8>,
}

/// Decides from the two TLS settings how to listen: with both set, TLS;
/// with neither, plain HTTP; with one alone, an error.
pub fn listen_mode(cert_chain: Option<String>, private_key: Option<String>) -> (r: Result<
    Listen,
    SettingError,
>)
    ensures
        r == (match (cert_chain, private_key) {
            (Some(chain), Some(key)) => Ok::<Listen, SettingError>(
                Listen::Tls { cert_chain: chain, private_key: key },
            ),
            (None, None) => Ok(Listen::Plain),
            (Some(_), None) => Err(SettingError::KeyMissing),
            (None, Some(_)) => Err(SettingError::ChainMissing),
        }),
{
    match (cert_chain, private_key) {
        (Some(chain), Some(key)) => Ok(Listen::Tls { cert_chain: chain, private_key: key }),
        (None, None) => Ok(Listen::Plain),
        (Some(_), None) => Err(SettingError::KeyMissing),
        (None, Some(_)) => Err(SettingError::ChainMissing),
    }
}

/// A list of byte strings as a mathematical value.
pub open spec fn der_list(items: Vec<Vec<u8>>) -> Seq<Seq<u8>> {
    items@.map_values(|item: Vec<u8>| item@)
}

/// The certificates that `rustls_pemfile::certs` finds in the bytes of a
/// PEM file, each in DER and in the order of the file; `None` where it
/// reports an error.
pub uninterp spec fn pem_certificates(pem: Seq<u8>) -> Option<Seq<Seq<u8>>>;

/// The keys that `rustls_pemfile::pkcs8_private_keys` finds in the bytes of
/// a PEM file; `None` where it reports an error.
pub uninterp spec fn pem_pkcs8_keys(pem: Seq<u8>) -> Option<Seq<Seq<u8>>>;

/// The keys that `rustls_pemfile::rsa_private_keys` finds in the bytes of a
/// PEM file; `None` where it reports an error.
pub uninterp spec fn pem_rsa_keys(pem: Seq<u8>) -> Option<Seq<Seq<u8>>>;

/// Calls `rustls_pemfile::certs` on the bytes of a PEM file. The result is
/// what that function returns for these bytes, with its error as `None`.
#[verifier::external_body]
fn read_certificates(pem: &[u8]) -> (r: Option<Vec<Vec<u8>>>)
    ensures
        match r {
            Some(items) => pem_certificates(pem@) == Some(der_list(items)),
            None => pem_certificates(pem@) is None,
        },
{
    let mut reader = pem;
    rustls_pemfile::certs(&mut reader).ok()
}

/// Calls `rustls_pemfile::pkcs8_private_keys` on the bytes of a PEM file.
/// The result is what that function returns for these bytes, with its error
/// as `None`.
#[verifier::external_body]
fn read_pkcs8_keys(pem: &[u8]) -> (r: Option<Vec<Vec<u8>>>)
    ensures
        match r {
            Some(items) => pem_pkcs8_keys(pem@) == Some(der_list(items)),
            None => pem_pkcs8_keys(pem@) is None,
        },
{
    let mut reader = pem;
    rustls_pemfile::pkcs8_private_keys(&mut reader).ok()
}

/// Calls `rustls_pemfile::rsa_private_keys` on the bytes of a PEM file. The
/// result is what that function returns for these bytes, with its error as
/// `None`.
#[verifier::external_body]
fn read_rsa_keys(pem: &[u8]) -> (r: Option<Vec<Vec<u8>>>)
    ensures
        match r {
            Some(items) => pem_rsa_keys(pem@) == Some(der_list(items)),
            None => pem_rsa_keys(pem@) is None,
        },
{
    let mut reader = pem;
    rustls_pemfile::rsa_private_keys(&mut reader).ok()
}

/// The first of a list of keys, if the list was read and holds one.
pub open spec fn first_key(keys: Option<Seq<Seq<u8>>>) -> Option<Seq<u8>> {
    match keys {
        Some(list) => if list.len() > 0 {
            Some(list[0])
        } else {
            None
        },
        None => None,
    }
}

/// The key to use: the first PKCS#8 key, or else the first RSA key.
pub open spec fn chosen_key(pkcs8: Option<Seq<Seq<u8>>>, rsa: Option<Seq<Seq<u8>>>) -> Option<
    Seq<u8>,
> {
    if first_key(pkcs8) is Some {
        first_key(pkcs8)
    } else {
        first_key(rsa)
    }
}

/// A list of keys that was read, or not, as a mathematical value.
pub open spec fn keys_view(keys: Option<Vec<Vec<u8>>>) -> Option<Seq<Seq<u8>>> {
    match keys {
        Some(list) => Some(der_list(list)),
        None => None,
    }
}

/// A key, or none, as a mathematical value.
pub open spec fn key_view(key: Option<Vec<u8>>) -> Option<Seq<u8>> {
    match key {
        Some(k) => Some(k@),
        None => None,
    }
}

/// Takes the first key out of a list that was read.
fn take_first(keys: Option<Vec<Vec<u8>>>) -> (r: Option<Vec<u8>>)
    ensures
        key_view(r) == first_key(keys_view(keys)),
{
    match keys {
        Some(list) => {
            let mut list = list;
            if list.len() > 0 {
                Some(list.remove(0))
            } else {
                None
            }
        },
        None => None,
    }
}

/// Picks the private key from what the two readings of a key file gave:
/// the first PKCS#8 key if there is one, else the first RSA key, else none.
/// Only the first key is used; it should match the certificate.
pub fn select_key(pkcs8: Option<Vec<Vec<u8>>>, rsa: Option<Vec<Vec<u8>>>) -> (r: Option<Vec<u8>>)
    ensures
        key_view(r) == chosen_key(keys_view(pkcs8), keys_view(rsa)),
{
    match take_first(pkcs8) {
        Some(key) => Some(key),
        None => take_first(rsa),
    }
}

/// The private key in the bytes of a PEM key file: the first PKCS#8 key,
/// or else the first RSA key.
pub fn load_key(pem: &[u8]) -> (r: Result<Vec<u8>, PemError>)
    ensures
        match r {
            Ok(key) => chosen_key(pem_pkcs8_keys(pem@), pem_rsa_keys(pem@)) == Some(key@),
            Err(e) => e == PemError::NoPrivateKey && chosen_key(
                pem_pkcs8_keys(pem@),
                pem_rsa_keys(pem@),
            ) is None,
        },
{
    let pkcs8 = read_pkcs8_keys(pem);
    let rsa = read_rsa_keys(pem);
    match select_key(pkcs8, rsa) {
        Some(key) => Ok(key),
        None => Err(PemError::NoPrivateKey),
    }
}

/// The certificates in the bytes of a PEM certificate file, in the order
/// of the file.
pub fn load_certs(pem: &[u8]) -> (r: Result<Vec<Vec<u8>>, PemError>)
    ensures
        match r {
            Ok(items) => pem_certificates(pem@) == Some(der_list(items)),
            Err(e) => e == PemError::BadCertificates && pem_certificates(pem@) is None,
        },
{
    match read_certificates(pem) {
        Some(items) => Ok(items),
        None => Err(PemError::BadCertificates),
    }
}

/// Certificates and private key for a TLS listener, from the bytes of the
/// two PEM files. The certificates are read first.
pub fn tls_material(cert_pem: &[u8], key_pem: &[u8]) -> (r: Result<TlsMaterial, PemError>)
    ensures
        match r {
            Ok(m) => pem_certificates(cert_pem@) == Some(der_list(m.certificates)) && chosen_key(
                pem_pkcs8_keys(key_pem@),
                pem_rsa_keys(key_pem@),
            ) == Some(m.private_key@),
            Err(e) => if pem_certificates(cert_pem@) is None {
                e == PemError::BadCertificates
            } else {
                e == PemError::NoPrivateKey && chosen_key(
                    pem_pkcs8_keys(key_pem@),
                    pem_rsa_keys(key_pem@),
                ) is None
            },
        },
{
    let certificates = match load_certs(cert_pem) {
        Ok(items) => items,
        Err(e) => {
            return Err(e);
        },
    };
    match load_key(key_pem) {
        Ok(private_key) => Ok(TlsMaterial { certificates, private_key }),
        Err(e) => Err(e),
    }
}

} // verus!
