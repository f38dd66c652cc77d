//! Certificates and keys out of PEM files.

use vstd::prelude::*;

verus! {

/// The protocol that TLS negotiates for HTTP/2.
pub const ALPN_H2: &'static str = "h2";

/// Why the files hold nothing to serve TLS with.
#[derive(Debug, PartialEq, Eq)]
pub enum TlsError {
    /// The certificate file holds no certificate.
    NoCertificates,
    /// The key file is not PEM: the text of the reader's error.
    InvalidKey(String),
    /// The key file holds no private key.
    NoPrivateKey,
}

/// Why the files hold nothing to serve TLS with.
pub enum TlsErrorView {
    NoCertificates,
    InvalidKey(Seq<char>),
    NoPrivateKey,
}

impl View for TlsError {
    type V = TlsErrorView;

    open spec fn view(&self) -> TlsErrorView {
        match self {
            TlsError::NoCertificates => TlsErrorView::NoCertificates,
            TlsError::InvalidKey(t) => TlsErrorView::InvalidKey(t@),
            TlsError::NoPrivateKey => TlsErrorView::NoPrivateKey,
        }
    }
}

/// The form that a private key is written in, as the label of its section says.
#[derive(Debug, Clone, Copy, PartialEq, Eq, Structural)]
pub enum KeyKind {
    /// `RSA PRIVATE KEY`.
    Pkcs1,
    /// `EC PRIVATE KEY`.
    Sec1,
    /// `PRIVATE KEY`.
    Pkcs8,
    /// A form that has no name here.
    Other,
}

/// A private key: its form and its DER.
#[derive(Debug, PartialEq, Eq)]
pub struct PrivateKey {
    pub kind: KeyKind,
    pub der: Vec<u8>,
}

impl View for PrivateKey {
    type V = (KeyKind, Seq<u8>);

    open spec fn view(&self) -> (KeyKind, Seq<u8>) {
        (self.kind, self.der@)
    }
}

/// What `rustls_pemfile` finds in a certificate file: each certificate in order, and a gap for
/// each section that it cannot read.
pub uninterp spec fn pem_cert_items(pem: Seq<u8>) -> Seq<Option<Seq<u8>>>;

/// What `rustls_pemfile` finds in a key file: the text of its error where it cannot read a section
/// before the first key; else the first key, if there is one.
pub uninterp spec fn pem_key_item(pem: Seq<u8>) -> Result<
    Option<(KeyKind, Seq<u8>)>,
    Seq<char>,
>;

/// The contents of a list of optional byte strings.
pub open spec fn item_views(v: Seq<Option<Vec<u8>>>) -> Seq<Option<Seq<u8>>> {
    v.map_values(
        |o: Option<Vec<u8>>|
            match o {
                Some(b) => Some(b@),
                None => None::<Seq<u8>>,
            },
    )
}

/// `rustls_pemfile::certs`: the certificates and the gaps, in order, depending on the bytes
/// alone.
#[verifier::external_body]
fn read_certs(pem: &[u8]) -> (r: Vec<Option<Vec<u8>>>)
    ensures
        item_views(r@) == pem_cert_items(pem@),
{
    let mut reader: &[u8] = pem;
    rustls_pemfile::certs(&mut reader).map(|c| c.ok().map(|der| der.as_ref().to_vec())).collect()
}

/// The contents of what a key file holds.
pub open spec fn key_item(item: Result<Option<PrivateKey>, String>) -> Result<
    Option<(KeyKind, Seq<u8>)>,
    Seq<char>,
> {
    match item {
        Ok(Some(k)) => Ok(Some(k@)),
        Ok(None) => Ok(None),
        Err(t) => Err(t@),
    }
}

/// `rustls_pemfile::private_key`: the first key with its form, no key, or the text of the error,
/// depending on the bytes alone.
#[verifier::external_body]
fn read_key(pem: &[u8]) -> (r: Result<Option<PrivateKey>, String>)
    ensures
        key_item(r) == pem_key_item(pem@),
{
    let mut reader: &[u8] = pem;
    let key = rustls_pemfile::private_key(&mut reader).map_err(|e| e.to_string())?;
    Ok(key.map(|k| PrivateKey {
        kind: match &k {
            rustls::pki_types::PrivateKeyDer::Pkcs1(_) => KeyKind::Pkcs1,
            rustls::pki_types::PrivateKeyDer::Sec1(_) => KeyKind::Sec1,
            rustls::pki_types::PrivateKeyDer::Pkcs8(_) => KeyKind::Pkcs8,
            _ => KeyKind::Other,
        },
        der: k.secret_der().to_vec(),
    }))
}

/// The items that are there, in order.
pub open spec fn present(items: Seq<Option<Seq<u8>>>) -> Seq<Seq<u8>>
    decreases items.len(),
{
    if items.len() == 0 {
        Seq::empty()
    } else {
        match items.last() {
            Some(b) => present(items.drop_last()).push(b),
            None => present(items.drop_last()),
        }
    }
}

/// The contents of a list of byte strings.
pub open spec fn der_views(v: Seq<Vec<u8>>) -> Seq<Seq<u8>> {
    v.map_values(|b: Vec<u8>| b@)
}

/// The certificates among the items: an error where there is none.
pub fn usable_certs(items: Vec<Option<Vec<u8>>>) -> (r: Result<Vec<Vec<u8>>, TlsError>)
    ensures
        match r {
            Ok(certs) => der_views(certs@) == present(item_views(items@)) && certs@.len() > 0,
            Err(e) => present(item_views(items@)).len() == 0 && e@ == TlsErrorView::NoCertificates,
        },
{
    let mut certs: Vec<Vec<u8>> = Vec::new();
    let mut i: usize = 0;
    let ghost views = item_views(items@);
    assert(views.take(0) =~= Seq::<Option<Seq<u8>>>::empty());
    assert(der_views(certs@) =~= Seq::<Seq<u8>>::empty());
    while i < items.len()
        invariant
            i <= items@.len(),
            views == item_views(items@),
            der_views(certs@) == present(views.take(i as int)),
        decreases items@.len() - i,
    {
        assert(views.take(i + 1).drop_last() =~= views.take(i as int));
        assert(views.take(i + 1).last() == views[i as int]);
        if let Some(b) = &items[i] {
            let ghost before = certs@;
            certs.push(crate::text::bytes_of(b.as_slice()));
            assert(der_views(certs@) =~= der_views(before).push(b@));
        }
        i += 1;
    }
    assert(views.take(views.len() as int) =~= views);
    assert(der_views(certs@).len() == certs@.len());
    if certs.len() == 0 {
        Err(TlsError::NoCertificates)
    } else {
        Ok(certs)
    }
}

/// The outcome that what a key file holds comes to.
pub open spec fn key_outcome(item: Result<Option<(KeyKind, Seq<u8>)>, Seq<char>>) -> Result<
    (KeyKind, Seq<u8>),
    TlsErrorView,
> {
    match item {
        Err(t) => Err(TlsErrorView::InvalidKey(t)),
        Ok(None) => Err(TlsErrorView::NoPrivateKey),
        Ok(Some(k)) => Ok(k),
    }
}

/// The contents of an outcome.
pub open spec fn key_result(r: Result<PrivateKey, TlsError>) -> Result<
    (KeyKind, Seq<u8>),
    TlsErrorView,
> {
    match r {
        Ok(k) => Ok(k@),
        Err(e) => Err(e@),
    }
}

/// The key among what a key file holds; the reader's error is passed on.
pub fn usable_key(item: Result<Option<PrivateKey>, String>) -> (r: Result<PrivateKey, TlsError>)
    ensures
        key_result(r) == key_outcome(key_item(item)),
{
    match item {
        Err(t) => Err(TlsError::InvalidKey(t)),
        Ok(None) => Err(TlsError::NoPrivateKey),
        Ok(Some(k)) => Ok(k),
    }
}

/// The certificates of a certificate file; sections that cannot be read are passed over.
pub fn load_certs(pem: &[u8]) -> (r: Result<Vec<Vec<u8>>, TlsError>)
    ensures
        match r {
            Ok(certs) => der_views(certs@) == present(pem_cert_items(pem@)) && certs@.len() > 0,
            Err(e) => present(pem_cert_items(pem@)).len() == 0 && e@ == TlsErrorView::NoCertificates,
        },
{
    usable_certs(read_certs(pem))
}

/// The private key of a key file: the first one.
pub fn load_key(pem: &[u8]) -> (r: Result<PrivateKey, TlsError>)
    ensures
        key_result(r) == key_outcome(pem_key_item(pem@)),
{
    usable_key(read_key(pem))
}

impl TlsError {
    /// The text of the error.
    pub fn as_str(&self) -> (r: &str)
        ensures
            r@ == (match self@ {
                TlsErrorView::NoCertificates => "No certificates found in cert file"@,
                TlsErrorView::InvalidKey(t) => t,
                TlsErrorView::NoPrivateKey => "No private key found"@,
            }),
    {
        match self {
            TlsError::NoCertificates => "No certificates found in cert file",
            TlsError::InvalidKey(t) => t.as_str(),
            TlsError::NoPrivateKey => "No private key found",
        }
    }
}

/// The certificates of a file are those of its parts in order: gaps leave nothing behind, and
/// nothing else goes.
pub proof fn law_certificates_are_kept_in_order(
    a: Seq<Option<Seq<u8>>>,
    b: Seq<Option<Seq<u8>>>,
    der: Seq<u8>,
)
    ensures
        present(a + b) == present(a) + present(b),
        present(seq![Some(der)]) == seq![der],
        present(seq![None::<Seq<u8>>]).len() == 0,
    decreases b.len(),
{
    if b.len() == 0 {
        assert(a + b =~= a);
        assert(present(a) + present(b) =~= present(a));
    } else {
        law_certificates_are_kept_in_order(a, b.drop_last(), der);
        assert((a + b).drop_last() =~= a + b.drop_last());
        assert((a + b).last() == b.last());
        if let Some(x) = b.last() {
            assert((present(a) + present(b.drop_last())).push(x) =~= present(a) + present(
                b.drop_last(),
            ).push(x));
        }
    }
    assert(seq![Some(der)].drop_last() =~= Seq::<Option<Seq<u8>>>::empty());
    assert(seq![None::<Seq<u8>>].drop_last() =~= Seq::<Option<Seq<u8>>>::empty());
    reveal_with_fuel(present, 2);
    assert(present(seq![Some(der)]) =~= seq![der]);
}

/// The key that a file holds comes out with its form; the reader's error comes out as it is; and
/// a file without a key is said to have none.
pub proof fn law_keys_are_passed_on(kind: KeyKind, der: Seq<u8>, t: Seq<char>)
    ensures
        key_outcome(Ok(Some((kind, der)))) == Ok::<_, TlsErrorView>((kind, der)),
        key_outcome(Ok(None)) == Err::<(KeyKind, Seq<u8>), _>(TlsErrorView::NoPrivateKey),
        key_outcome(Err(t)) == Err::<(KeyKind, Seq<u8>), _>(TlsErrorView::InvalidKey(t)),
{
}

} // verus!
