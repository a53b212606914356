//! The local certificate authority: loading or making its certificate and key,
//! and issuing per-host leaf certificates, through `rcgen`; and the per-host
//! cache of TLS server configurations, through `rustls`.
//!
//! Each certificate carries a plain model of what went into it: the parameters
//! the library set (or the stored certificate they were read from), the DER of
//! its own key, the parameters of its issuer, and the DER of the key that signed it.

use vstd::prelude::*;
use crate::cli::{joined, join_path};
use crate::textmap::TextMap;

verus! {

#[verifier::external_type_specification]
#[verifier::external_body]
pub struct ExRcgenCertificate(rcgen::Certificate);

#[verifier::external_type_specification]
#[verifier::external_body]
pub struct ExRcgenKeyPair(rcgen::KeyPair);

#[verifier::external_type_specification]
#[verifier::external_body]
pub struct ExRcgenCertificateParams(rcgen::CertificateParams);

#[verifier::external_type_specification]
#[verifier::external_body]
pub struct ExRcgenError(rcgen::Error);

#[verifier::external_type_specification]
#[verifier::external_body]
pub struct ExRustlsServerConfig(rustls::ServerConfig);

#[verifier::external_type_specification]
#[verifier::external_body]
pub struct ExRustlsError(rustls::Error);

/// The bytes a PEM text holds, as the `pem` crate's parser (which
/// `rcgen::KeyPair::from_pem` uses) decodes them: for a text that
/// `pem::encode_config` wrote, the bytes it encoded.
pub uninterp spec fn pem_contents(pem: Seq<char>) -> Seq<u8>;

/// Whether `rcgen::CertificateParams::from_ca_cert_pem` accepts a PEM text.
pub uninterp spec fn ca_pem_accepted(pem: Seq<char>) -> bool;

/// Whether `rcgen::CertificateParams::new` accepts a subject alternative name: it
/// takes an IP address, or else any ASCII text as a DNS name, and every IP address
/// literal is ASCII, so exactly the ASCII texts.
pub open spec fn san_accepted(name: Seq<char>) -> bool {
    forall|i: int| 0 <= i < name.len() ==> (name[i] as u32) < 128
}

/// Whether rcgen's ring backend parses a PKCS#8 DER key (`KeyPair::try_from`); a
/// function of the bytes alone. Drawing on the random source can only add failures.
pub uninterp spec fn key_der_accepted(der: Seq<u8>) -> bool;

/// Whether the first block of a PEM text is a key that rcgen's ring backend parses
/// (`KeyPair::from_pem`); a function of the text alone. Drawing on the random
/// source can only add failures.
pub uninterp spec fn key_pem_accepted(pem: Seq<char>) -> bool;

/// A calendar date that `rcgen::date_time_ymd` takes without panicking (the
/// library only asks for days that every month has).
pub open spec fn safe_ymd(d: (i32, u8, u8)) -> bool {
    -9999 <= d.0 <= 9999 && 1 <= d.1 <= 12 && 1 <= d.2 <= 28
}

/// What the library sets in a certificate it makes.
pub struct CertParams {
    /// An unconstrained CA (`IsCa::Ca(BasicConstraints::Unconstrained)`), or not a CA.
    pub ca: bool,
    /// The subject's common name.
    pub common_name: String,
    /// The subject's organization name, if any.
    pub organization: Option<String>,
    /// The subject alternative names.
    pub alt_names: Vec<String>,
    /// First day of validity (from midnight UTC), as year, month, day.
    pub not_before: (i32, u8, u8),
    /// Last moment of validity: midnight UTC of this day.
    pub not_after: (i32, u8, u8),
}

/// Where a certificate's parameters came from.
pub enum CertSource {
    /// Parameters the library set.
    Made(CertParams),
    /// Parameters read from a stored certificate, given in PEM form.
    Stored(Seq<char>),
}

/// A key pair with its PKCS#8 DER form.
pub struct Key {
    pair: rcgen::KeyPair,
    der: Vec<u8>,
}


impl Key {
    /// The key's PKCS#8 DER form.
    pub closed spec fn der_bytes(self) -> Seq<u8> {
        self.der@
    }
}

/// Certificate parameters ready for signing, with where they came from.
pub struct Params {
    inner: rcgen::CertificateParams,
    source: Ghost<CertSource>,
}

/// A signed certificate and the model of what went into it.
pub struct Cert {
    inner: rcgen::Certificate,
    der: Vec<u8>,
    source: Ghost<CertSource>,
    key_der: Ghost<Seq<u8>>,
    issuer: Ghost<CertSource>,
    signer_der: Ghost<Seq<u8>>,
}

impl Cert {
    /// The certificate in DER form, as signed.
    pub closed spec fn der_bytes(self) -> Seq<u8> {
        self.der@
    }

    /// Where the certificate's parameters came from.
    pub closed spec fn source(self) -> CertSource {
        self.source@
    }

    /// The DER of the key whose public half the certificate holds.
    pub closed spec fn key_der(self) -> Seq<u8> {
        self.key_der@
    }

    /// Where the issuer's parameters (its subject) came from.
    pub closed spec fn issuer(self) -> CertSource {
        self.issuer@
    }

    /// The DER of the key that signed the certificate.
    pub closed spec fn signer_der(self) -> Seq<u8> {
        self.signer_der@
    }
}

/// `rcgen::KeyPair::try_from` on PKCS#8 DER bytes. It succeeds only on bytes it
/// accepts, and then the key's DER is those bytes (rcgen keeps them as its
/// serialized form). That it succeeds on every accepted key is not stated: parsing
/// an ECDSA key draws on the system's random source.
#[verifier::external_body]
fn key_from_der(der: Vec<u8>) -> (r: Result<Key, rcgen::Error>)
    ensures
        r is Ok ==> key_der_accepted(der@),
        r matches Ok(k) ==> k.der_bytes() == der@,
{
    let pair = rcgen::KeyPair::try_from(der.as_slice())?;
    Ok(Key { pair, der })
}

/// `rcgen::KeyPair::from_pem`, with the key's DER read back by `serialize_der`. It
/// succeeds only on a text it accepts, and then the DER is the bytes the PEM text
/// holds. That it succeeds on every accepted text is not stated: parsing an ECDSA
/// key draws on the system's random source.
#[verifier::external_body]
fn key_from_pem(pem: &str) -> (r: Result<Key, rcgen::Error>)
    ensures
        r is Ok ==> key_pem_accepted(pem@),
        r matches Ok(k) ==> k.der_bytes() == pem_contents(pem@),
{
    let pair = rcgen::KeyPair::from_pem(pem)?;
    let der = pair.serialize_der();
    Ok(Key { pair, der })
}

/// The parameters `p` as `rcgen::CertificateParams`: `CertificateParams::new` with
/// the alternative names, the CA flag, a distinguished name of the common name and
/// the organization, and the validity from `rcgen::date_time_ymd`. Succeeds
/// exactly when every alternative name is accepted.
#[verifier::external_body]
fn params_from_model(p: CertParams) -> (r: Result<Params, rcgen::Error>)
    requires
        safe_ymd(p.not_before),
        safe_ymd(p.not_after),
    ensures
        r is Ok <==> forall|i: int| 0 <= i < p.alt_names@.len() ==> san_accepted(#[trigger] p.alt_names@[i]@),
        r matches Ok(q) ==> q.source@ == CertSource::Made(p),
{
    let mut inner = rcgen::CertificateParams::new(p.alt_names.clone())?;
    inner.is_ca = if p.ca { rcgen::IsCa::Ca(rcgen::BasicConstraints::Unconstrained) } else { rcgen::IsCa::NoCa };
    let mut dn = rcgen::DistinguishedName::new();
    dn.push(rcgen::DnType::CommonName, p.common_name.as_str());
    if let Some(o) = &p.organization {
        dn.push(rcgen::DnType::OrganizationName, o.as_str());
    }
    inner.distinguished_name = dn;
    inner.not_before = rcgen::date_time_ymd(p.not_before.0, p.not_before.1, p.not_before.2);
    inner.not_after = rcgen::date_time_ymd(p.not_after.0, p.not_after.1, p.not_after.2);
    Ok(Params { inner, source: Ghost(CertSource::Made(p)) })
}

/// `rcgen::CertificateParams::from_ca_cert_pem`: succeeds exactly when the text is a
/// certificate it accepts, a function of the text alone.
#[verifier::external_body]
fn params_from_stored(pem: &str) -> (r: Result<Params, rcgen::Error>)
    ensures
        r is Ok <==> ca_pem_accepted(pem@),
        r matches Ok(q) ==> q.source@ == CertSource::Stored(pem@),
{
    let inner = rcgen::CertificateParams::from_ca_cert_pem(pem)?;
    Ok(Params { inner, source: Ghost(CertSource::Stored(pem@)) })
}

/// `rcgen::CertificateParams::self_signed`: a certificate of `params` for `key`,
/// signed by `key`, its issuer being itself, with its DER (`Certificate::der`). Signing draws randomness; whether it
/// succeeds is not stated.
#[verifier::external_body]
fn sign_self(params: Params, key: &Key) -> (r: Result<Cert, rcgen::Error>)
    ensures
        r matches Ok(c) ==> c.source() == params.source@ && c.key_der() == key.der_bytes()
            && c.issuer() == params.source@ && c.signer_der() == key.der_bytes(),
{
    let inner = params.inner.self_signed(&key.pair)?;
    let der = inner.der().to_vec();
    Ok(Cert {
        inner,
        der,
        source: Ghost(params.source@),
        key_der: Ghost(key.der@),
        issuer: Ghost(params.source@),
        signer_der: Ghost(key.der@),
    })
}

/// `rcgen::CertificateParams::signed_by`: a certificate of `params` for `key`, issued
/// by `issuer` (its subject becomes the issuer name) and signed by `issuer_key`,
/// with its DER (`Certificate::der`).
/// Signing draws randomness; whether it succeeds is not stated.
#[verifier::external_body]
fn sign_by(params: Params, key: &Key, issuer: &Cert, issuer_key: &Key) -> (r: Result<Cert, rcgen::Error>)
    ensures
        r matches Ok(c) ==> c.source() == params.source@ && c.key_der() == key.der_bytes()
            && c.issuer() == issuer.source() && c.signer_der() == issuer_key.der_bytes(),
{
    let inner = params.inner.signed_by(&key.pair, &issuer.inner, &issuer_key.pair)?;
    let der = inner.der().to_vec();
    Ok(Cert {
        inner,
        der,
        source: Ghost(params.source@),
        key_der: Ghost(key.der@),
        issuer: Ghost(issuer.source@),
        signer_der: Ghost(issuer_key.der@),
    })
}

/// The label of a certificate in PEM form.
pub open spec fn certificate_label() -> Seq<char> {
    seq!['C', 'E', 'R', 'T', 'I', 'F', 'I', 'C', 'A', 'T', 'E']
}

/// The label of a PKCS#8 private key in PEM form.
pub open spec fn private_key_label() -> Seq<char> {
    seq!['P', 'R', 'I', 'V', 'A', 'T', 'E', ' ', 'K', 'E', 'Y']
}

/// `text` opens with the PEM header line of `label`: `-----BEGIN `, the label,
/// then `-----`.
pub open spec fn begins_pem(text: Seq<char>, label: Seq<char>) -> bool {
    let n = label.len() as int;
    &&& text.len() >= n + 16
    &&& text.subrange(0, 11) == seq!['-', '-', '-', '-', '-', 'B', 'E', 'G', 'I', 'N', ' ']
    &&& text.subrange(11, 11 + n) == label
    &&& text.subrange(11 + n, 16 + n) == seq!['-', '-', '-', '-', '-']
}

/// `rcgen::Certificate::pem`: the certificate's DER in PEM form
/// (`pem::encode_config`), which opens with the `CERTIFICATE` header and which the
/// `pem` parser reads back as that DER. The base64 line layout is not stated.
#[verifier::external_body]
fn certificate_pem(cert: &Cert) -> (r: String)
    ensures
        begins_pem(r@, certificate_label()),
        pem_contents(r@) == cert.der_bytes(),
{
    cert.inner.pem()
}

/// `rcgen::KeyPair::serialize_pem`: the key's DER in PEM form, which opens with the
/// `PRIVATE KEY` header and which the `pem` parser reads back as that DER.
#[verifier::external_body]
fn key_pem_text(key: &Key) -> (r: String)
    ensures
        begins_pem(r@, private_key_label()),
        pem_contents(r@) == key.der_bytes(),
{
    key.pair.serialize_pem()
}

/// A TLS server configuration for one leaf certificate, and the model of that leaf.
pub struct Served {
    config: std::sync::Arc<rustls::ServerConfig>,
    cert_der: Ghost<Seq<u8>>,
    leaf: Ghost<CertSource>,
    issuer: Ghost<CertSource>,
    signer_der: Ghost<Seq<u8>>,
    key_der: Ghost<Seq<u8>>,
}

impl Served {
    /// The TLS server configuration.
    pub closed spec fn config(self) -> std::sync::Arc<rustls::ServerConfig> {
        self.config
    }

    /// The DER of the certificate it serves.
    pub closed spec fn cert_der(self) -> Seq<u8> {
        self.cert_der@
    }

    /// Where the parameters of the certificate it serves came from.
    pub closed spec fn leaf(self) -> CertSource {
        self.leaf@
    }

    /// Where the parameters of that certificate's issuer came from.
    pub closed spec fn issuer(self) -> CertSource {
        self.issuer@
    }

    /// The DER of the key that signed that certificate.
    pub closed spec fn signer_der(self) -> Seq<u8> {
        self.signer_der@
    }

    /// The DER of the private key it serves with.
    pub closed spec fn key_der(self) -> Seq<u8> {
        self.key_der@
    }
}

/// `rustls::ServerConfig::builder`, with no client authentication and the single
/// certificate `cert` (its DER, which it records) with the PKCS#8 key `key` (`with_single_cert`),
/// shared in an `Arc`. Whether rustls accepts the key is not stated.
#[verifier::external_body]
fn serve(cert: &Cert, key: &Key) -> (r: Result<Served, rustls::Error>)
    ensures
        r matches Ok(s) ==> s.cert_der() == cert.der_bytes() && s.leaf() == cert.source() && s.issuer() == cert.issuer()
            && s.signer_der() == cert.signer_der() && s.key_der() == key.der_bytes(),
{
    let config = rustls::ServerConfig::builder().with_no_client_auth().with_single_cert(
        vec![rustls::pki_types::CertificateDer::from(cert.der.clone())],
        rustls::pki_types::PrivateKeyDer::Pkcs8(rustls::pki_types::PrivatePkcs8KeyDer::from(key.der.clone())),
    )?;
    Ok(Served {
        config: std::sync::Arc::new(config),
        cert_der: Ghost(cert.der@),
        leaf: Ghost(cert.source@),
        issuer: Ghost(cert.issuer@),
        signer_der: Ghost(cert.signer_der@),
        key_der: Ghost(key.der@),
    })
}

/// `Arc::clone` of a served configuration's handle.
#[verifier::external_body]
fn served_config(s: &Served) -> (r: std::sync::Arc<rustls::ServerConfig>)
    ensures
        r == s.config(),
{
    s.config.clone()
}

/// Why a CA operation failed.
pub enum CaError {
    /// A key could not be parsed.
    ParseKey,
    /// The stored CA certificate could not be parsed.
    ParseCertificate,
    /// The CA certificate could not be signed.
    SignCertificate,
    /// The host is not a name a certificate can carry.
    LeafName,
    /// The leaf certificate could not be signed.
    SignLeaf,
    /// No TLS server configuration could be made of the leaf certificate.
    ServerConfig,
}

/// Midnight UTC of 2024-01-01, when the certificates the CA makes become valid.
pub open spec fn valid_from() -> (i32, u8, u8) {
    (2024, 1, 1)
}

/// Midnight UTC of 2035-01-01, when the certificates the CA makes stop being valid.
pub open spec fn valid_until() -> (i32, u8, u8) {
    (2035, 1, 1)
}

/// The parameters of the CA certificate: an unconstrained CA named
/// `taphttp local CA`, organization `taphttp`, with no alternative names, valid
/// from 2024-01-01 to 2035-01-01.
pub open spec fn is_ca_params(p: CertParams) -> bool {
    &&& p.ca
    &&& p.common_name@ == seq![
        't', 'a', 'p', 'h', 't', 't', 'p', ' ', 'l', 'o', 'c', 'a', 'l', ' ', 'C', 'A',
    ]
    &&& p.organization matches Some(o) && o@ == seq!['t', 'a', 'p', 'h', 't', 't', 'p']
    &&& p.alt_names@.len() == 0
    &&& p.not_before == valid_from()
    &&& p.not_after == valid_until()
}

/// The parameters of a leaf certificate for `host`: not a CA, the one alternative
/// name `host`, the subject rcgen gives by default (common name
/// `rcgen self signed cert`), valid from 2024-01-01 to 2035-01-01.
pub open spec fn is_leaf_params(p: CertParams, host: Seq<char>) -> bool {
    &&& !p.ca
    &&& p.common_name@ == seq![
        'r', 'c', 'g', 'e', 'n', ' ', 's', 'e', 'l', 'f', ' ', 's', 'i', 'g', 'n', 'e', 'd', ' ',
        'c', 'e', 'r', 't',
    ]
    &&& p.organization is None
    &&& p.alt_names@.len() == 1
    &&& p.alt_names@[0]@ == host
    &&& p.not_before == valid_from()
    &&& p.not_after == valid_until()
}

fn ca_params() -> (r: CertParams)
    ensures
        is_ca_params(r),
{
    proof {
        reveal_strlit("taphttp local CA");
        reveal_strlit("taphttp");
    }
    let name = "taphttp local CA".to_owned();
    let org = "taphttp".to_owned();
    assert(name@ =~= seq!['t', 'a', 'p', 'h', 't', 't', 'p', ' ', 'l', 'o', 'c', 'a', 'l', ' ', 'C', 'A']);
    assert(org@ =~= seq!['t', 'a', 'p', 'h', 't', 't', 'p']);
    CertParams {
        ca: true,
        common_name: name,
        organization: Some(org),
        alt_names: Vec::new(),
        not_before: (2024, 1, 1),
        not_after: (2035, 1, 1),
    }
}

fn leaf_params(host: &str) -> (r: CertParams)
    ensures
        is_leaf_params(r, host@),
{
    proof {
        reveal_strlit("rcgen self signed cert");
    }
    let name = "rcgen self signed cert".to_owned();
    assert(name@ =~= seq![
        'r', 'c', 'g', 'e', 'n', ' ', 's', 'e', 'l', 'f', ' ', 's', 'i', 'g', 'n', 'e', 'd', ' ',
        'c', 'e', 'r', 't',
    ]);
    let mut names: Vec<String> = Vec::new();
    names.push(host.to_owned());
    CertParams {
        ca: false,
        common_name: name,
        organization: None,
        alt_names: names,
        not_before: (2024, 1, 1),
        not_after: (2035, 1, 1),
    }
}

/// A leaf certificate and its key.
pub struct LeafCert {
    cert: Cert,
    key: Key,
}

impl LeafCert {
    /// The certificate's model.
    pub closed spec fn cert(self) -> Cert {
        self.cert
    }

    /// The DER of the leaf's private key.
    pub closed spec fn key_der_bytes(self) -> Seq<u8> {
        self.key.der@
    }

    /// The certificate in DER form.
    pub fn cert_der(&self) -> (r: Vec<u8>)
        ensures
            r@ == self.cert().der_bytes(),
    {
        self.cert.der.clone()
    }

    /// The private key in PKCS#8 DER form.
    pub fn key_der(&self) -> (r: Vec<u8>)
        ensures
            r@ == self.key_der_bytes(),
    {
        self.key.der.clone()
    }
}

/// The local certificate authority.
pub struct Ca {
    cert: Cert,
    key: Key,
    cert_text: String,
    key_text: String,
}

/// The CA certificate's file name in the data directory.
pub open spec fn cert_file_name() -> Seq<char> {
    seq!['c', 'a', '.', 'c', 'r', 't']
}

/// The CA key's file name in the data directory.
pub open spec fn key_file_name() -> Seq<char> {
    seq!['c', 'a', '.', 'k', 'e', 'y']
}

/// The parts of `ca` hold together: its certificate holds the CA's key, is signed
/// by it and is its own issuer, and the certificate text it writes out is that
/// certificate, and the key text that key.
pub open spec fn ca_consistent(ca: Ca) -> bool {
    &&& ca.cert().key_der() == ca.key_der()
    &&& ca.cert().signer_der() == ca.key_der()
    &&& ca.cert().issuer() == ca.cert().source()
    &&& pem_contents(ca.cert_pem_text()) == ca.cert().der_bytes()
    &&& pem_contents(ca.key_pem_text()) == ca.key_der()
}

/// `ca` is the CA read from the stored certificate text and key text: its key is
/// the stored key, and its certificate is made from the stored certificate's
/// parameters, holds that key and is self-signed by it.
pub open spec fn loaded_from(ca: Ca, cert_pem: Seq<char>, key_pem: Seq<char>) -> bool {
    &&& ca_consistent(ca)
    &&& ca.key_der() == pem_contents(key_pem)
    &&& ca.cert().source() == CertSource::Stored(cert_pem)
}

/// `ca` is a new CA for the key `key_der`: its certificate has the CA parameters,
/// holds that key and is self-signed by it.
pub open spec fn made_ca(ca: Ca, key_der: Seq<u8>) -> bool {
    &&& ca_consistent(ca)
    &&& ca.key_der() == key_der
    &&& ca.cert().source() matches CertSource::Made(p) && is_ca_params(p)
}

/// `leaf` is a certificate for `host` issued by the CA `ca` for the key `key_der`.
pub open spec fn issued_for(leaf: Cert, host: Seq<char>, ca: Ca, key_der: Seq<u8>) -> bool {
    &&& leaf.source() matches CertSource::Made(p) && is_leaf_params(p, host)
    &&& leaf.key_der() == key_der
    &&& leaf.issuer() == ca.cert().source()
    &&& leaf.signer_der() == ca.key_der()
}

/// `s` serves a certificate for `host` issued by `ca`, with the key `key_der`.
pub open spec fn serves_leaf_for(s: Served, host: Seq<char>, ca: Ca, key_der: Seq<u8>) -> bool {
    &&& s.leaf() matches CertSource::Made(p) && is_leaf_params(p, host)
    &&& s.key_der() == key_der
    &&& s.issuer() == ca.cert().source()
    &&& s.signer_der() == ca.key_der()
}

impl Ca {
    #[verifier::type_invariant]
    spec fn well_formed(self) -> bool {
        &&& begins_pem(self.cert_text@, certificate_label())
        &&& begins_pem(self.key_text@, private_key_label())
        &&& pem_contents(self.cert_text@) == self.cert.der@
        &&& pem_contents(self.key_text@) == self.key.der@
        &&& self.cert.key_der() == self.key.der@
        &&& self.cert.signer_der() == self.key.der@
        &&& self.cert.issuer() == self.cert.source()
    }

    /// The CA certificate's model.
    pub closed spec fn cert(self) -> Cert {
        self.cert
    }

    /// The DER of the CA's private key.
    pub closed spec fn key_der(self) -> Seq<u8> {
        self.key.der@
    }

    /// The CA certificate in PEM form, as it was encoded when the CA was made.
    pub closed spec fn cert_pem_text(self) -> Seq<char> {
        self.cert_text@
    }

    /// The CA private key in PEM form, as it was encoded when the CA was made.
    pub closed spec fn key_pem_text(self) -> Seq<char> {
        self.key_text@
    }

    fn assemble(cert: Cert, key: Key) -> (r: Ca)
        requires
            cert.key_der() == key.der_bytes(),
            cert.signer_der() == key.der_bytes(),
            cert.issuer() == cert.source(),
        ensures
            r.cert() == cert,
            r.key_der() == key.der_bytes(),
            ca_consistent(r),
    {
        let cert_text = certificate_pem(&cert);
        let key_text = key_pem_text(&key);
        Ca { cert, key, cert_text, key_text }
    }

    /// The CA of a stored certificate and key, both in PEM form: the key is parsed,
    /// then the certificate's parameters, which are signed anew with the key.
    pub fn from_pem(cert_pem: &str, key_pem: &str) -> (r: Result<Ca, CaError>)
        ensures
            r matches Ok(ca) ==> loaded_from(ca, cert_pem@, key_pem@) && ca_pem_accepted(cert_pem@)
                && key_pem_accepted(key_pem@),
            !ca_pem_accepted(cert_pem@) ==> r is Err,
            !key_pem_accepted(key_pem@) ==> r matches Err(CaError::ParseKey),
            r matches Err(CaError::ParseCertificate) ==> !ca_pem_accepted(cert_pem@),
            r is Err ==> r matches Err(CaError::ParseKey) || r matches Err(
                CaError::ParseCertificate,
            ) || r matches Err(CaError::SignCertificate),
    {
        let key = match key_from_pem(key_pem) {
            Ok(k) => k,
            Err(_) => {
                return Err(CaError::ParseKey);
            },
        };
        let params = match params_from_stored(cert_pem) {
            Ok(p) => p,
            Err(_) => {
                return Err(CaError::ParseCertificate);
            },
        };
        match sign_self(params, &key) {
            Ok(cert) => Ok(Ca::assemble(cert, key)),
            Err(_) => Err(CaError::SignCertificate),
        }
    }

    /// A new CA for the freshly generated PKCS#8 key `key_der`: a certificate of an
    /// unconstrained CA named `taphttp local CA`, organization `taphttp`, valid from
    /// 2024-01-01 to 2035-01-01, self-signed by that key.
    pub fn generate(key_der: Vec<u8>) -> (r: Result<Ca, CaError>)
        ensures
            r matches Ok(ca) ==> made_ca(ca, key_der@) && key_der_accepted(key_der@),
            !key_der_accepted(key_der@) ==> r matches Err(CaError::ParseKey),
            r is Err ==> r matches Err(CaError::ParseKey) || r matches Err(
                CaError::SignCertificate,
            ),
    {
        let key = match key_from_der(key_der) {
            Ok(k) => k,
            Err(_) => {
                return Err(CaError::ParseKey);
            },
        };
        let params = match params_from_model(ca_params()) {
            Ok(p) => p,
            Err(_) => {
                return Err(CaError::SignCertificate);
            },
        };
        match sign_self(params, &key) {
            Ok(cert) => Ok(Ca::assemble(cert, key)),
            Err(_) => Err(CaError::SignCertificate),
        }
    }

    /// The CA certificate in PEM form: the same text on every call, opening with
    /// the `CERTIFICATE` header, and holding the certificate the CA signs with.
    pub fn cert_pem(&self) -> (r: String)
        ensures
            r@ == self.cert_pem_text(),
            begins_pem(r@, certificate_label()),
            pem_contents(r@) == self.cert().der_bytes(),
            ca_consistent(*self),
    {
        proof {
            use_type_invariant(self);
        }
        self.cert_text.clone()
    }

    /// The CA private key in PKCS#8 PEM form: the same text on every call, opening
    /// with the `PRIVATE KEY` header, and holding the CA's key.
    pub fn key_pem(&self) -> (r: String)
        ensures
            r@ == self.key_pem_text(),
            begins_pem(r@, private_key_label()),
            pem_contents(r@) == self.key_der(),
    {
        proof {
            use_type_invariant(self);
        }
        self.key_text.clone()
    }

    /// The path of the CA certificate inside `data_dir`.
    pub fn cert_path(data_dir: &str) -> (r: String)
        ensures
            r@ == joined(data_dir@, cert_file_name()),
    {
        proof {
            reveal_strlit("ca.crt");
        }
        join_path(data_dir, "ca.crt")
    }

    /// The path of the CA private key inside `data_dir`.
    pub fn key_path(data_dir: &str) -> (r: String)
        ensures
            r@ == joined(data_dir@, key_file_name()),
    {
        proof {
            reveal_strlit("ca.key");
        }
        join_path(data_dir, "ca.key")
    }

    /// A certificate for `host` with the freshly generated PKCS#8 key `key_der`,
    /// issued and signed by the CA, valid from 2024-01-01 to 2035-01-01. The host is
    /// checked first, then the key is parsed.
    pub fn issue_leaf(&self, host: &str, key_der: Vec<u8>) -> (r: Result<LeafCert, CaError>)
        ensures
            r matches Ok(l) ==> issued_for(l.cert(), host@, *self, key_der@) && l.key_der_bytes()
                == key_der@,
            r matches Err(CaError::LeafName) <==> !san_accepted(host@),
            san_accepted(host@) && !key_der_accepted(key_der@) ==> r matches Err(CaError::ParseKey),
            r is Ok ==> san_accepted(host@) && key_der_accepted(key_der@),
            r is Err ==> r matches Err(CaError::ParseKey) || r matches Err(CaError::LeafName)
                || r matches Err(CaError::SignLeaf),
            ca_consistent(*self),
    {
        proof {
            use_type_invariant(self);
        }
        let model = leaf_params(host);
        let params = match params_from_model(model) {
            Ok(p) => p,
            Err(_) => {
                return Err(CaError::LeafName);
            },
        };
        let key = match key_from_der(key_der) {
            Ok(k) => k,
            Err(_) => {
                return Err(CaError::ParseKey);
            },
        };
        let cert = match sign_by(params, &key, &self.cert, &self.key) {
            Ok(c) => c,
            Err(_) => {
                return Err(CaError::SignLeaf);
            },
        };
        Ok(LeafCert { cert, key })
    }

    /// The configuration cached for `host`, if any.
    pub fn cached_config(cache: &ConfigCache, host: &str) -> (r: Option<std::sync::Arc<rustls::ServerConfig>>)
        ensures
            match r {
                Some(c) => cache@.contains_key(host@) && c == cache@[host@].config(),
                None => !cache@.contains_key(host@),
            },
    {
        match cache.get(host) {
            Some(s) => Some(served_config(s)),
            None => None,
        }
    }

    /// The TLS server configuration for `host`: the cached one, or a new one that
    /// serves a leaf certificate for `host` issued by the CA with the freshly
    /// generated PKCS#8 key `key_der`, which is then cached.
    pub fn server_config_for(&self, cache: &mut ConfigCache, host: &str, key_der: Vec<u8>) -> (r: Result<
        std::sync::Arc<rustls::ServerConfig>,
        CaError,
    >)
        ensures
            cache_step(old(cache)@, host@, r, final(cache)@, *self, key_der@),
            r matches Err(CaError::LeafName) <==> !old(cache)@.contains_key(host@) && !san_accepted(
                host@,
            ),
            !old(cache)@.contains_key(host@) && san_accepted(host@) && !key_der_accepted(key_der@)
                ==> r matches Err(CaError::ParseKey),
            r is Ok && !old(cache)@.contains_key(host@) ==> key_der_accepted(key_der@),
            r is Err ==> r matches Err(CaError::ParseKey) || r matches Err(CaError::LeafName)
                || r matches Err(CaError::SignLeaf) || r matches Err(CaError::ServerConfig),
    {
        match cache.get(host) {
            Some(s) => {
                return Ok(served_config(s));
            },
            None => {},
        }
        let leaf = match self.issue_leaf(host, key_der) {
            Ok(l) => l,
            Err(e) => {
                return Err(e);
            },
        };
        let served = match serve(&leaf.cert, &leaf.key) {
            Ok(s) => s,
            Err(_) => {
                return Err(CaError::ServerConfig);
            },
        };
        let config = served_config(&served);
        let ghost s = served;
        cache.insert(host.to_owned(), served);
        proof {
            assert(serves_leaf_for(s, host@, *self, key_der@));
        }
        Ok(config)
    }
}

/// The TLS server configurations made so far, one per host.
pub type ConfigCache = TextMap<Served>;

/// One lookup in the configuration cache for `host`: a cached configuration is
/// returned and the cache kept; otherwise, when a new one is made, it serves a
/// leaf certificate for `host` issued by `ca` with the key `key_der`, is cached
/// under `host` and returned; a failure leaves the cache as it was.
pub open spec fn cache_step(
    before: Map<Seq<char>, Served>,
    host: Seq<char>,
    result: Result<std::sync::Arc<rustls::ServerConfig>, CaError>,
    after: Map<Seq<char>, Served>,
    ca: Ca,
    key_der: Seq<u8>,
) -> bool {
    if before.contains_key(host) {
        result == Ok::<std::sync::Arc<rustls::ServerConfig>, CaError>(before[host].config())
            && after == before
    } else {
        match result {
            Ok(c) => exists|s: Served|
                #![trigger before.insert(host, s)]
                after == before.insert(host, s) && s.config() == c && serves_leaf_for(s, host, ca, key_der),
            Err(_) => after == before,
        }
    }
}

/// Asking twice for the same host gives the same configuration, and the second
/// time the cache stays as it is.
pub proof fn law_cache_returns_same_config(
    m0: Map<Seq<char>, Served>,
    host: Seq<char>,
    r1: Result<std::sync::Arc<rustls::ServerConfig>, CaError>,
    m1: Map<Seq<char>, Served>,
    r2: Result<std::sync::Arc<rustls::ServerConfig>, CaError>,
    m2: Map<Seq<char>, Served>,
    ca: Ca,
    k1: Seq<u8>,
    k2: Seq<u8>,
)
    requires
        cache_step(m0, host, r1, m1, ca, k1),
        cache_step(m1, host, r2, m2, ca, k2),
        r1 is Ok,
    ensures
        r2 == r1,
        m2 == m1,
{
    if !m0.contains_key(host) {
        let s = choose|s: Served| m1 == m0.insert(host, s) && r1 == Ok::<std::sync::Arc<rustls::ServerConfig>, CaError>(s.config());
        assert(m1.contains_key(host) && m1[host] == s);
    }
}

/// Loading the same stored certificate and key twice gives CAs with the same key
/// and certificate parameters.
pub proof fn law_loading_twice_keeps_ca(ca1: Ca, ca2: Ca, cert_pem: Seq<char>, key_pem: Seq<char>)
    requires
        loaded_from(ca1, cert_pem, key_pem),
        loaded_from(ca2, cert_pem, key_pem),
    ensures
        ca1.key_der() == ca2.key_der(),
        ca1.cert().source() == ca2.cert().source(),
{
}

/// The certificate a CA writes out is the one it signs with: every leaf it issues
/// names that certificate's subject as its issuer and is signed by the key that
/// certificate holds, and the written text holds that certificate.
pub proof fn law_written_cert_signs_leaves(ca: Ca, leaf: Cert, host: Seq<char>, key_der: Seq<u8>)
    requires
        ca_consistent(ca),
        issued_for(leaf, host, ca, key_der),
    ensures
        pem_contents(ca.cert_pem_text()) == ca.cert().der_bytes(),
        leaf.issuer() == ca.cert().source(),
        leaf.signer_der() == ca.cert().key_der(),
{
}

/// A CA loaded from the key text another CA writes has that CA's key.
pub proof fn law_written_key_loads_back(ca: Ca, loaded: Ca, cert_pem: Seq<char>)
    requires
        loaded_from(loaded, cert_pem, ca.key_pem_text()),
        pem_contents(ca.key_pem_text()) == ca.key_der(),
    ensures
        loaded.key_der() == ca.key_der(),
{
}

} // verus!
