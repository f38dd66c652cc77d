//! The certificate and key paths of the QUIC server.

use crate::text;
use crate::transport::tls::{load_certs, load_key, TlsError};
use vstd::prelude::*;

verus! {

/// The paths of a certificate file and a key file that hold what TLS needs.
#[derive(Debug)]
pub struct QuicheTlsPaths {
    cert: String,
    private_key: String,
}

impl QuicheTlsPaths {
    /// The path of the certificate file.
    pub closed spec fn cert_path(&self) -> Seq<char> {
        self.cert@
    }

    /// The path of the key file.
    pub closed spec fn key_path(&self) -> Seq<char> {
        self.private_key@
    }

    /// Checks that the two files hold a certificate and a private key, and keeps their paths.
    pub fn new(
        cert_path: &str,
        key_path: &str,
        cert_pem: &[u8],
        key_pem: &[u8],
    ) -> (r: Result<Self, TlsError>)
        ensures
            ({
                let certs = crate::transport::tls::present(
                    crate::transport::tls::pem_cert_items(cert_pem@),
                );
                let key = crate::transport::tls::key_outcome(
                    crate::transport::tls::pem_key_item(key_pem@),
                );
                match r {
                    Ok(p) => certs.len() > 0 && key is Ok && p.cert_path() == cert_path@
                        && p.key_path() == key_path@,
                    Err(e) => if certs.len() == 0 {
                        e@ == crate::transport::tls::TlsErrorView::NoCertificates
                    } else {
                        key == Err::<(crate::transport::tls::KeyKind, Seq<u8>), _>(e@)
                    },
                }
            }),
    {
        match load_certs(cert_pem) {
            Err(e) => {
                return Err(e);
            },
            Ok(certs) => {
                assert(crate::transport::tls::der_views(certs@).len() == certs@.len());
            },
        }
        match load_key(key_pem) {
            Err(e) => Err(e),
            Ok(_) => Ok(
                QuicheTlsPaths { cert: text::owned(cert_path), private_key: text::owned(key_path) },
            ),
        }
    }

    /// The path of the certificate file.
    pub fn cert(&self) -> (r: &str)
        ensures
            r@ == self.cert_path(),
    {
        self.cert.as_str()
    }

    /// The path of the key file.
    pub fn private_key(&self) -> (r: &str)
        ensures
            r@ == self.key_path(),
    {
        self.private_key.as_str()
    }
}

} // verus!
