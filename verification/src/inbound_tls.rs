//! Encrypted queries from other devices: the certificate and the addresses to listen on.
use vstd::prelude::*;
use vstd::string::*;
use rcgen::{CertificateParams, DistinguishedName, DnType, SanType};
use crate::config::InboundTlsConfig;
use crate::net::{parse_addresses, parse_ip, IpAddr, SocketAddr};
use crate::net::{addresses, ip_value};
use crate::text::{copy_of, copy_texts, join, same_text, sort_texts, trim};
use crate::text::{joined, lemma_sorted_texts_unique, texts, texts_sorted, trimmed};

verus! {

/// The directory of the certificate, inside the state directory.
pub const TLS_DIR: &'static str = "inbound-tls";

/// The file of the certificate.
pub const CERT_FILE: &'static str = "cert.pem";

/// The file of the key.
pub const KEY_FILE: &'static str = "key.pem";

/// The file that says for which names and addresses the certificate was made.
pub const FINGERPRINT_FILE: &'static str = "san-fingerprint";

/// The port of encrypted queries.
pub const DOT_PORT: u16 = 853;

/// Who the certificate says that it belongs to.
pub const CERT_COMMON_NAME: &'static str = "hushwarren inbound DNS";

/// The organisation that the certificate names.
pub const CERT_ORGANIZATION: &'static str = "hushwarren";

/// Errors of setting up encrypted queries.
#[derive(Debug)]
pub enum InboundTlsError {
    /// A file or a socket failed.
    Io(String),
    /// The certificate could not be made.
    CertGen(String),
    /// The certificate or its key is unusable.
    TlsConfig(String),
}

/// An error, with its detail as text.
pub enum InboundTlsErrorModel {
    Io(Seq<char>),
    CertGen(Seq<char>),
    TlsConfig(Seq<char>),
}

impl View for InboundTlsError {
    type V = InboundTlsErrorModel;

    open spec fn view(&self) -> InboundTlsErrorModel {
        match self {
            InboundTlsError::Io(s) => InboundTlsErrorModel::Io(s@),
            InboundTlsError::CertGen(s) => InboundTlsErrorModel::CertGen(s@),
            InboundTlsError::TlsConfig(s) => InboundTlsErrorModel::TlsConfig(s@),
        }
    }
}

/// The message shown for an error.
pub open spec fn inbound_tls_error_text(e: InboundTlsErrorModel) -> Seq<char> {
    match e {
        InboundTlsErrorModel::Io(s) => "I/O error: "@ + s,
        InboundTlsErrorModel::CertGen(s) => "certificate generation error: "@ + s,
        InboundTlsErrorModel::TlsConfig(s) => "TLS configuration error: "@ + s,
    }
}

impl InboundTlsError {
    /// The message shown for the error.
    pub fn message(&self) -> (r: String)
        ensures
            r@ == inbound_tls_error_text(self@),
    {
        match self {
            InboundTlsError::Io(s) => "I/O error: ".to_owned().concat(s.as_str()),
            InboundTlsError::CertGen(s) => "certificate generation error: ".to_owned().concat(
                s.as_str(),
            ),
            InboundTlsError::TlsConfig(s) => "TLS configuration error: ".to_owned().concat(
                s.as_str(),
            ),
        }
    }
}

// ── Addresses ───────────────────────────────────────────────────────────────

/// Where queries over TLS and, where they are accepted, over QUIC are listened for.
#[derive(Debug)]
pub struct BoundInboundTls {
    pub dot_addrs: Vec<SocketAddr>,
    pub doq_addrs: Vec<SocketAddr>,
}

/// The error for a text that is no address.
pub open spec fn bad_bind_ip(text: Seq<char>) -> InboundTlsErrorModel {
    InboundTlsErrorModel::Io("invalid bind IP "@ + text + ": invalid IP address syntax"@)
}

/// The addresses to listen on, in order, or the error for the first text that is none.
pub fn bind_inbound_tls(cfg: &InboundTlsConfig, dot_port: u16) -> (r: Result<
    BoundInboundTls,
    InboundTlsError,
>)
    ensures
        (match r {
            Ok(b) => {
                &&& b.dot_addrs@.len() == cfg.bind@.len()
                &&& forall|i: int|
                    0 <= i < cfg.bind@.len() ==> (#[trigger] b.dot_addrs@[i]).port == dot_port
                        && ip_value(cfg.bind@[i]@) == Some(b.dot_addrs@[i].ip)
                &&& b.doq_addrs@ == if cfg.doq {
                    b.dot_addrs@
                } else {
                    Seq::<SocketAddr>::empty()
                }
            },
            Err(e) => exists|i: int|
                {
                    &&& 0 <= i < cfg.bind@.len()
                    &&& ip_value(#[trigger] cfg.bind@[i]@) is None
                    &&& forall|j: int| 0 <= j < i ==> ip_value(#[trigger] cfg.bind@[j]@) is Some
                    &&& e@ == bad_bind_ip(cfg.bind@[i]@)
                },
        }),
{
    let mut dot_addrs: Vec<SocketAddr> = Vec::new();
    let mut doq_addrs: Vec<SocketAddr> = Vec::new();
    let mut i: usize = 0;
    while i < cfg.bind.len()
        invariant
            0 <= i <= cfg.bind.len(),
            dot_addrs@.len() == i,
            forall|j: int|
                0 <= j < i ==> (#[trigger] dot_addrs@[j]).port == dot_port && ip_value(
                    cfg.bind@[j]@,
                ) == Some(dot_addrs@[j].ip),
            doq_addrs@ == if cfg.doq {
                dot_addrs@
            } else {
                Seq::<SocketAddr>::empty()
            },
        decreases cfg.bind.len() - i,
    {
        match parse_ip(cfg.bind[i].as_str()) {
            Some(ip) => {
                dot_addrs.push(SocketAddr { ip, port: dot_port });
                if cfg.doq {
                    doq_addrs.push(SocketAddr { ip, port: dot_port });
                }
            },
            None => {
                let mut m = "invalid bind IP ".to_owned();
                m.append(cfg.bind[i].as_str());
                m.append(": invalid IP address syntax");
                proof {
                    assert forall|j: int| 0 <= j < i implies ip_value(#[trigger] cfg.bind@[j]@) is Some by {
                        assert(dot_addrs@[j].port == dot_port);
                    }
                }
                return Err(InboundTlsError::Io(m));
            },
        }
        i += 1;
    }
    Ok(BoundInboundTls { dot_addrs, doq_addrs })
}

// ── The certificate ─────────────────────────────────────────────────────────

/// The name of this machine, from what the command that asks for it printed.
pub fn hostname_or_localhost(printed: Option<&str>) -> (r: String)
    ensures
        r@ == if printed is Some && trimmed(printed->0@).len() > 0 {
            trimmed(printed->0@)
        } else {
            "localhost"@
        },
        r@.len() > 0,
{
    proof {
        reveal_strlit("localhost");
    }
    match printed {
        Some(s) => {
            let t = trim(s);
            if t.as_str().is_empty() {
                "localhost".to_owned()
            } else {
                t
            }
        },
        None => "localhost".to_owned(),
    }
}

/// `f` says for which addresses and which name a certificate is made: all of them, in order,
/// with commas between them.
pub open spec fn is_fingerprint(f: Seq<char>, bind_ips: Seq<Seq<char>>, hostname: Seq<char>) -> bool {
    exists|s: Seq<Seq<char>>|
        {
            &&& #[trigger] texts_sorted(s)
            &&& s.to_multiset() == bind_ips.push(hostname).to_multiset()
            &&& f == joined(s, ","@)
        }
}

/// What says for which addresses and which name a certificate is made.
pub fn san_fingerprint(bind_ips: &Vec<String>, hostname: &str) -> (r: String)
    ensures
        is_fingerprint(r@, texts(bind_ips@), hostname@),
{
    let mut sans = copy_texts(bind_ips);
    let ghost before = texts(sans@);
    sans.push(copy_of(hostname));
    proof {
        assert(texts(sans@) =~= before.push(hostname@));
    }
    let sorted = sort_texts(sans);
    proof {
        assert(texts_sorted(texts(sorted@)));
    }
    join(&sorted, ",")
}

/// The fingerprint does not depend on the order in which the addresses are configured, nor on
/// when it is taken.
pub proof fn law_fingerprint_is_stable(
    f: Seq<char>,
    g: Seq<char>,
    bind_ips: Seq<Seq<char>>,
    reordered: Seq<Seq<char>>,
    hostname: Seq<char>,
)
    requires
        bind_ips.to_multiset() == reordered.to_multiset(),
        is_fingerprint(f, bind_ips, hostname),
        is_fingerprint(g, reordered, hostname),
    ensures
        f == g,
{
    let s = choose|s: Seq<Seq<char>>|
        {
            &&& #[trigger] texts_sorted(s)
            &&& s.to_multiset() == bind_ips.push(hostname).to_multiset()
            &&& f == joined(s, ","@)
        };
    let t = choose|s: Seq<Seq<char>>|
        {
            &&& #[trigger] texts_sorted(s)
            &&& s.to_multiset() == reordered.push(hostname).to_multiset()
            &&& g == joined(s, ","@)
        };
    broadcast use vstd::seq_lib::group_to_multiset_ensures;

    assert(bind_ips.push(hostname).to_multiset() =~= reordered.push(hostname).to_multiset());
    lemma_sorted_texts_unique(s, t);
}

/// Whether a certificate has to be made: where there is none, or where it was made for other
/// names and addresses, or where that cannot be told.
pub fn needs_regen(
    cert_exists: bool,
    key_exists: bool,
    stored_fingerprint: Option<&str>,
    current_fingerprint: &str,
) -> (r: bool)
    ensures
        r == !(cert_exists && key_exists && stored_fingerprint is Some && trimmed(
            stored_fingerprint->0@,
        ) == current_fingerprint@),
{
    if !cert_exists || !key_exists {
        return true;
    }
    match stored_fingerprint {
        None => true,
        Some(f) => {
            let t = trim(f);
            !same_text(t.as_str(), current_fingerprint)
        },
    }
}

/// A certificate and its key, as text.
#[derive(Debug)]
pub struct CertPem {
    pub cert: String,
    pub key: String,
}

/// `rcgen::KeyPair`: a key with its public half.
#[verifier::external_type_specification]
#[verifier::external_body]
pub struct ExKeyPair(rcgen::KeyPair);

/// Whether all characters are ASCII ones.
pub open spec fn is_ascii_text(s: Seq<char>) -> bool {
    forall|i: int| 0 <= i < s.len() ==> (#[trigger] s[i] as u32) < 128
}

/// The text of the error of a host name that is not ASCII.
pub open spec fn not_ascii_error(host: Seq<char>) -> Seq<char> {
    "Invalid IA5String: '"@ + host + "'"@
}

/// `rcgen::string::Ia5String::try_from`: takes a text whose characters are all ASCII ones, as
/// it is, and refuses every other text with an error that quotes it.
#[verifier::external_body]
fn ia5_text(host: &str) -> (r: Result<String, String>)
    ensures
        (match r {
            Ok(t) => is_ascii_text(host@) && t@ == host@,
            Err(e) => !is_ascii_text(host@) && e@ == not_ascii_error(host@),
        }),
{
    match rcgen::string::Ia5String::try_from(host) {
        Ok(t) => Ok(t.to_string()),
        Err(e) => Err(e.to_string()),
    }
}

/// What a certificate is asked for.
#[derive(Debug)]
pub struct CertRequest {
    /// The host name that it is valid for.
    pub host: String,
    /// The addresses that it is valid for.
    pub ips: Vec<IpAddr>,
    /// Who it belongs to.
    pub common_name: String,
    /// The organisation that it names.
    pub organization: String,
}

/// `q` asks for a certificate for this machine's name and those of the configured texts that are
/// addresses.
pub open spec fn is_request(cfg: InboundTlsConfig, hostname: Seq<char>, q: CertRequest) -> bool {
    &&& q.host@ == hostname
    &&& q.ips@ == addresses(texts(cfg.bind@))
    &&& q.common_name@ == CERT_COMMON_NAME@
    &&& q.organization@ == CERT_ORGANIZATION@
}

/// The certificate that a configuration asks for: one for this machine's name and those of the
/// configured texts that are addresses.
pub fn certificate_request(cfg: &InboundTlsConfig, hostname: &str) -> (r: Result<
    CertRequest,
    InboundTlsError,
>)
    ensures
        (match r {
            Ok(q) => is_ascii_text(hostname@) && is_request(*cfg, hostname@, q),
            Err(e) => !is_ascii_text(hostname@) && e@ == InboundTlsErrorModel::CertGen(
                "invalid hostname SAN: "@ + not_ascii_error(hostname@),
            ),
        }),
{
    match ia5_text(hostname) {
        Err(t) => Err(
            InboundTlsError::CertGen("invalid hostname SAN: ".to_owned().concat(t.as_str())),
        ),
        Ok(host) => Ok(
            CertRequest {
                host,
                ips: parse_addresses(&cfg.bind),
                common_name: CERT_COMMON_NAME.to_owned(),
                organization: CERT_ORGANIZATION.to_owned(),
            },
        ),
    }
}

/// `rcgen::KeyPair::generate_for` with `PKCS_ECDSA_P256_SHA256`: a fresh key, or the error's
/// text.  The key is left to chance, so nothing is claimed of it.
#[verifier::external_body]
fn fresh_key() -> Result<rcgen::KeyPair, String> {
    rcgen::KeyPair::generate_for(&rcgen::PKCS_ECDSA_P256_SHA256).map_err(|e| e.to_string())
}

/// `rcgen::KeyPair::serialize_pem`: a key as text.  Keys are opaque here, so nothing is claimed
/// of the text.
#[verifier::external_body]
fn key_pem(key: &rcgen::KeyPair) -> String {
    key.serialize_pem()
}

/// `rcgen::CertificateParams::self_signed`: the certificate for a request, as text, or the
/// error's text.  It depends on the key and on the chance in its signature, so nothing is
/// claimed of it.
#[verifier::external_body]
fn self_signed(q: &CertRequest, key: &rcgen::KeyPair) -> Result<String, String>
    requires
        is_ascii_text(q.host@),
{
    let host = q.host.as_str().try_into().map_err(|e: rcgen::Error| e.to_string())?;
    let mut params = CertificateParams::default();
    params.distinguished_name = DistinguishedName::new();
    params.distinguished_name.push(DnType::CommonName, q.common_name.as_str());
    params.distinguished_name.push(DnType::OrganizationName, q.organization.as_str());
    params.subject_alt_names = vec![SanType::DnsName(host)];
    params.subject_alt_names.extend(q.ips.iter().map(|ip| SanType::IpAddress(match ip {
        IpAddr::V4(n) => n.to_be_bytes().into(),
        IpAddr::V6(n) => n.to_be_bytes().into(),
    })));
    params.self_signed(key).map(|c| c.pem()).map_err(|e| e.to_string())
}

/// How making a certificate ended.
#[derive(Debug)]
pub enum CertMade {
    /// No key could be made.
    NoKey(String),
    /// The certificate could not be signed.
    NotSigned(String),
    /// There is a certificate, and its key.
    Made(CertPem),
}

/// `r` is what comes of an attempt to make a certificate.
pub open spec fn is_certificate_outcome(made: CertMade, r: Result<CertPem, InboundTlsError>) -> bool {
    match made {
        CertMade::NoKey(t) => r matches Err(e) && e@ == InboundTlsErrorModel::CertGen(
            "key generation error: "@ + t@,
        ),
        CertMade::NotSigned(t) => r matches Err(e) && e@ == InboundTlsErrorModel::CertGen(
            "certificate signing error: "@ + t@,
        ),
        CertMade::Made(p) => r == Ok::<CertPem, InboundTlsError>(p),
    }
}

/// What comes of an attempt to make a certificate.
pub fn certificate_outcome(made: CertMade) -> (r: Result<CertPem, InboundTlsError>)
    ensures
        is_certificate_outcome(made, r),
{
    match made {
        CertMade::NoKey(t) => Err(
            InboundTlsError::CertGen("key generation error: ".to_owned().concat(t.as_str())),
        ),
        CertMade::NotSigned(t) => Err(
            InboundTlsError::CertGen("certificate signing error: ".to_owned().concat(t.as_str())),
        ),
        CertMade::Made(p) => Ok(p),
    }
}

/// `made` is how it ended to draw a key, to sign the certificate that `q` asks for with it, and
/// to write both down.
pub closed spec fn is_making(q: CertRequest, made: CertMade) -> bool {
    match made {
        CertMade::NoKey(t) => call_ensures(fresh_key, (), Err::<rcgen::KeyPair, String>(t)),
        CertMade::NotSigned(t) => exists|key: rcgen::KeyPair|
            {
                &&& #[trigger] call_ensures(fresh_key, (), Ok::<rcgen::KeyPair, String>(key))
                &&& call_ensures(self_signed, (&q, &key), Err::<String, String>(t))
            },
        CertMade::Made(p) => exists|key: rcgen::KeyPair|
            {
                &&& #[trigger] call_ensures(fresh_key, (), Ok::<rcgen::KeyPair, String>(key))
                &&& call_ensures(self_signed, (&q, &key), Ok::<String, String>(p.cert))
                &&& call_ensures(key_pem, (&key,), p.key)
            },
    }
}

/// Draws a key, signs the certificate that is asked for with it, and writes both down.
fn make_certificate(q: &CertRequest) -> (r: CertMade)
    requires
        is_ascii_text(q.host@),
    ensures
        is_making(*q, r),
{
    match fresh_key() {
        Err(t) => {
            proof {
                assert(call_ensures(fresh_key, (), Err::<rcgen::KeyPair, String>(t)));
            }
            CertMade::NoKey(t)
        },
        Ok(key) => {
            proof {
                assert(call_ensures(fresh_key, (), Ok::<rcgen::KeyPair, String>(key)));
            }
            match self_signed(q, &key) {
                Err(t) => CertMade::NotSigned(t),
                Ok(cert) => CertMade::Made(CertPem { cert, key: key_pem(&key) }),
            }
        },
    }
}

/// A certificate for this machine's name and those of the configured texts that are addresses,
/// and its key.  Whether a key can be made and used is left to the machine; a name that is not
/// ASCII is refused before that.
pub fn generate_self_signed_cert(cfg: &InboundTlsConfig, hostname: &str) -> (r: Result<
    CertPem,
    InboundTlsError,
>)
    ensures
        !is_ascii_text(hostname@) ==> (r matches Err(e) && e@ == InboundTlsErrorModel::CertGen(
            "invalid hostname SAN: "@ + not_ascii_error(hostname@),
        )),
        is_ascii_text(hostname@) ==> exists|q: CertRequest, made: CertMade|
            {
                &&& is_request(*cfg, hostname@, q)
                &&& #[trigger] is_making(q, made)
                &&& is_certificate_outcome(made, r)
            },
{
    let q = match certificate_request(cfg, hostname) {
        Ok(q) => q,
        Err(e) => {
            return Err(e);
        },
    };
    let made = make_certificate(&q);
    certificate_outcome(made)
}

/// The certificates that `CertificateDer::pem_slice_iter` finds in a text; the error as text
/// where a section cannot be read.
pub uninterp spec fn pem_certificates(pem: Seq<u8>) -> Result<Seq<Seq<u8>>, Seq<char>>;

/// `rustls::pki_types::CertificateDer::pem_slice_iter`: the certificates in a text, in order.
/// They are a function of the text.
#[verifier::external_body]
fn read_certificates(pem: &[u8]) -> (r: Result<Vec<Vec<u8>>, String>)
    ensures
        (match r {
            Ok(v) => pem_certificates(pem@) == Ok::<Seq<Seq<u8>>, Seq<char>>(
                crate::odoh::byte_lists(v@),
            ),
            Err(e) => pem_certificates(pem@) == Err::<Seq<Seq<u8>>, Seq<char>>(e@),
        }),
{
    <rustls::pki_types::CertificateDer as rustls::pki_types::pem::PemObject>::pem_slice_iter(pem)
        .map(|c| c.map(|c| c.as_ref().to_vec()))
        .collect::<Result<Vec<Vec<u8>>, _>>()
        .map_err(|e| e.to_string())
}

/// The key that `PrivateKeyDer::from_pem_slice` finds in a text; the error as text where it
/// finds none.
pub uninterp spec fn pem_key(pem: Seq<u8>) -> Result<Seq<u8>, Seq<char>>;

/// `rustls::pki_types::PrivateKeyDer::from_pem_slice`: the first key in a text.  It is a
/// function of the text.
#[verifier::external_body]
fn read_key(pem: &[u8]) -> (r: Result<Vec<u8>, String>)
    ensures
        (match r {
            Ok(v) => pem_key(pem@) == Ok::<Seq<u8>, Seq<char>>(v@),
            Err(e) => pem_key(pem@) == Err::<Seq<u8>, Seq<char>>(e@),
        }),
{
    <rustls::pki_types::PrivateKeyDer as rustls::pki_types::pem::PemObject>::from_pem_slice(pem)
        .map(|k| k.secret_der().to_vec())
        .map_err(|e| e.to_string())
}

/// A chain of certificates and the key of the first one.
#[derive(Debug)]
pub struct CertDer {
    pub certs: Vec<Vec<u8>>,
    pub key: Vec<u8>,
}

/// Puts certificates and key together, provided that there is a certificate and the key could
/// be read.
pub fn certificate_chain(
    certs: Result<Vec<Vec<u8>>, String>,
    key: Result<Vec<u8>, String>,
) -> (r: Result<CertDer, InboundTlsError>)
    ensures
        (match certs {
            Err(t) => r matches Err(e) && e@ == InboundTlsErrorModel::TlsConfig(
                "cert PEM parse error: "@ + t@,
            ),
            Ok(c) => if c@.len() == 0 {
                r matches Err(e) && e@ == InboundTlsErrorModel::TlsConfig(
                    "no certificate found in cert_path"@,
                )
            } else {
                match key {
                    Err(t) => r matches Err(e) && e@ == InboundTlsErrorModel::TlsConfig(
                        "key PEM parse error: "@ + t@,
                    ),
                    Ok(k) => r matches Ok(d) && d.certs@ == c@ && d.key@ == k@,
                }
            },
        }),
{
    let certs = match certs {
        Ok(c) => c,
        Err(t) => {
            return Err(
                InboundTlsError::TlsConfig("cert PEM parse error: ".to_owned().concat(t.as_str())),
            );
        },
    };
    if certs.len() == 0 {
        return Err(InboundTlsError::TlsConfig("no certificate found in cert_path".to_owned()));
    }
    match key {
        Ok(key) => Ok(CertDer { certs, key }),
        Err(t) => Err(
            InboundTlsError::TlsConfig("key PEM parse error: ".to_owned().concat(t.as_str())),
        ),
    }
}

/// The certificates and the key in two texts.
pub fn pem_to_der(cert_pem: &[u8], key_pem: &[u8]) -> (r: Result<CertDer, InboundTlsError>)
    ensures
        (match pem_certificates(cert_pem@) {
            Err(t) => r matches Err(e) && e@ == InboundTlsErrorModel::TlsConfig(
                "cert PEM parse error: "@ + t,
            ),
            Ok(c) => if c.len() == 0 {
                r matches Err(e) && e@ == InboundTlsErrorModel::TlsConfig(
                    "no certificate found in cert_path"@,
                )
            } else {
                match pem_key(key_pem@) {
                    Err(t) => r matches Err(e) && e@ == InboundTlsErrorModel::TlsConfig(
                        "key PEM parse error: "@ + t,
                    ),
                    Ok(k) => r matches Ok(d) && crate::odoh::byte_lists(d.certs@) == c && d.key@
                        == k,
                }
            },
        }),
{
    let certs = read_certificates(cert_pem);
    let key = read_key(key_pem);
    certificate_chain(certs, key)
}

// ── The key for the listeners ───────────────────────────────────────────────

/// The type of `rustls::pki_types::PrivateKeyDer`.
#[verifier::external_type_specification]
#[verifier::external_body]
pub struct ExPrivateKeyDer<'a>(rustls::pki_types::PrivateKeyDer<'a>);

/// The type of `rustls::sign::CertifiedKey`.
#[verifier::external_type_specification]
#[verifier::external_body]
pub struct ExCertifiedKey(rustls::sign::CertifiedKey);

/// The bytes behind tag and length of a DER sequence.
pub open spec fn sequence_body(der: Seq<u8>) -> Option<Seq<u8>> {
    let skip = if der[1] >= 128 {
        2 + (der[1] - 128)
    } else {
        2
    };
    if der.len() >= 2 && der[0] == 0x30 && skip <= der.len() {
        Some(der.skip(skip))
    } else {
        None
    }
}

/// Bytes that begin as one of the three forms of a private key does: a sequence with a version
/// number, which is 0 or 1 or followed by another sequence.
pub open spec fn has_key_form(der: Seq<u8>) -> bool {
    sequence_body(der) matches Some(b) && b.len() >= 3 && b[0] == 2 && b[1] == 1 && (b[2] == 0
        || b[2] == 1 || (b.len() > 3 && b[3] == 0x30))
}

/// `PrivateKeyDer::try_from` of `rustls::pki_types`: tells the form of a key by its first bytes,
/// and refuses others.
#[verifier::external_body]
fn key_from_der(der: Vec<u8>) -> (r: Result<rustls::pki_types::PrivateKeyDer<'static>, String>)
    ensures
        r is Ok <==> has_key_form(der@),
        r matches Err(e) ==> e@ == "unknown or invalid key format"@,
{
    rustls::pki_types::PrivateKeyDer::try_from(der).map_err(|e| e.to_string())
}

/// `rustls::crypto::ring::sign::any_supported_type`: the key, ready to sign with, put together
/// with its certificates.  Whether it is refused rests on the key and on the randomness of the
/// system; what is inside a key that is not cannot be seen from here.
#[verifier::external_body]
fn signing_key(certs: Vec<Vec<u8>>, key: &rustls::pki_types::PrivateKeyDer<'static>) -> (r: Result<
    rustls::sign::CertifiedKey,
    String,
>)
    ensures
        r matches Err(e) ==> e@
            == "unexpected error: failed to parse private key as RSA, ECDSA, or EdDSA"@,
{
    let certs = certs.into_iter().map(rustls::pki_types::CertificateDer::from).collect();
    rustls::crypto::ring::sign::any_supported_type(key)
        .map(|k| rustls::sign::CertifiedKey::new(certs, k))
        .map_err(|e| e.to_string())
}

/// `r` is what becomes of a key that was made ready to sign with, or of the text of the error.
pub open spec fn is_signing_outcome(
    made: Result<rustls::sign::CertifiedKey, String>,
    r: Result<rustls::sign::CertifiedKey, InboundTlsError>,
) -> bool {
    match made {
        Ok(k) => r == Ok::<rustls::sign::CertifiedKey, InboundTlsError>(k),
        Err(t) => r matches Err(e) && e@ == InboundTlsErrorModel::TlsConfig(
            "unsupported key type: "@ + t@,
        ),
    }
}

/// What becomes of a key that was made ready to sign with, or of the text of the error.
pub fn signing_outcome(made: Result<rustls::sign::CertifiedKey, String>) -> (r: Result<
    rustls::sign::CertifiedKey,
    InboundTlsError,
>)
    ensures
        is_signing_outcome(made, r),
{
    match made {
        Ok(k) => Ok(k),
        Err(t) => Err(
            InboundTlsError::TlsConfig("unsupported key type: ".to_owned().concat(t.as_str())),
        ),
    }
}

/// `made` is what came of making the key in `der` ready to sign with, together with the
/// certificates in `der`.
pub closed spec fn is_made_ready(
    der: CertDer,
    made: Result<rustls::sign::CertifiedKey, String>,
) -> bool {
    exists|key: rustls::pki_types::PrivateKeyDer<'static>|
        {
            &&& #[trigger] call_ensures(
                key_from_der,
                (der.key,),
                Ok::<rustls::pki_types::PrivateKeyDer<'static>, String>(key),
            )
            &&& call_ensures(signing_key, (der.certs, &key), made)
        }
}

/// The certificates and the key, as the listeners use them.  Bytes that are no private key are
/// refused; a key may be refused besides.
pub fn build_certified_key(der: CertDer) -> (r: Result<
    rustls::sign::CertifiedKey,
    InboundTlsError,
>)
    ensures
        !has_key_form(der.key@) ==> (r matches Err(e) && e@ == InboundTlsErrorModel::TlsConfig(
            "invalid private key DER: "@ + "unknown or invalid key format"@,
        )),
        has_key_form(der.key@) ==> exists|made: Result<rustls::sign::CertifiedKey, String>|
            #[trigger] is_made_ready(der, made) && is_signing_outcome(made, r),
        has_key_form(der.key@) ==> (r matches Err(e) ==> e@ == InboundTlsErrorModel::TlsConfig(
            "unsupported key type: "@
                + "unexpected error: failed to parse private key as RSA, ECDSA, or EdDSA"@,
        )),
{
    let ghost given = der;
    match key_from_der(der.key) {
        Err(t) => Err(
            InboundTlsError::TlsConfig("invalid private key DER: ".to_owned().concat(t.as_str())),
        ),
        Ok(key) => {
            let made = signing_key(der.certs, &key);
            proof {
                assert(call_ensures(
                    key_from_der,
                    (given.key,),
                    Ok::<rustls::pki_types::PrivateKeyDer<'static>, String>(key),
                ));
                assert(is_made_ready(given, made));
            }
            signing_outcome(made)
        },
    }
}

/// Which certificate is used.
#[derive(Debug, Clone, Copy, PartialEq, Eq, Structural)]
pub enum CertSource {
    /// The configured one.
    Configured,
    /// The one that the daemon makes for itself.
    SelfSigned,
}

/// Which certificate is used: the configured one, where one is configured.
pub fn cert_source(cfg: &InboundTlsConfig) -> (r: CertSource)
    ensures
        r == if cfg.cert_path@.len() == 0 {
            CertSource::SelfSigned
        } else {
            CertSource::Configured
        },
{
    if cfg.cert_path.as_str().is_empty() {
        CertSource::SelfSigned
    } else {
        CertSource::Configured
    }
}

// ── What the steps mean ─────────────────────────────────────────────────────

/// Each configured text has to be an address: then all of them are listened on, in order, at the
/// given port, over QUIC just where that is asked for.
pub proof fn law_every_text_has_to_be_an_address(
    cfg: &InboundTlsConfig,
    port: u16,
    r: Result<BoundInboundTls, InboundTlsError>,
    i: int,
    text: &str,
    ip: Option<IpAddr>,
)
    requires
        call_ensures(bind_inbound_tls, (cfg, port), r),
        0 <= i < cfg.bind@.len(),
        text@ == cfg.bind@[i]@,
        call_ensures(parse_ip, (text,), ip),
    ensures
        ip is None ==> r is Err,
        r matches Ok(b) ==> b.dot_addrs@.len() == cfg.bind@.len() && b.dot_addrs@[i] == (SocketAddr {
            ip: ip->0,
            port,
        }),
        r matches Ok(b) ==> (cfg.doq ==> b.doq_addrs@ == b.dot_addrs@),
        r matches Ok(b) ==> (!cfg.doq ==> b.doq_addrs@.len() == 0),
        r is Err ==> exists|k: int| 0 <= k < cfg.bind@.len() && ip_value(#[trigger] cfg.bind@[k]@) is None,
{
    match r {
        Ok(b) => assert(b.dot_addrs@[i].port == port),
        Err(e) => {},
    }
}

/// The name of this machine is what was printed, between white space, and `localhost` where
/// nothing was.
pub proof fn law_the_name_of_this_machine(printed: Option<&str>, r: String)
    requires
        call_ensures(hostname_or_localhost, (printed,), r),
    ensures
        printed is Some && trimmed(printed->0@).len() > 0 ==> r@ == trimmed(printed->0@),
        printed is None ==> r@ == "localhost"@,
        printed is Some && trimmed(printed->0@).len() == 0 ==> r@ == "localhost"@,
{
}

/// The fingerprint names every address and the host, and is the same for the same ones, in
/// whatever order they are configured.
pub proof fn law_the_fingerprint_names_everything(
    ips: &Vec<String>,
    reordered: &Vec<String>,
    host: &str,
    f: String,
    g: String,
    i: int,
)
    requires
        call_ensures(san_fingerprint, (ips, host), f),
        call_ensures(san_fingerprint, (reordered, host), g),
        texts(ips@).to_multiset() == texts(reordered@).to_multiset(),
    ensures
        f@ == g@,
        crate::text::has_infix(f@, host@),
        0 <= i < ips@.len() ==> crate::text::has_infix(f@, ips@[i]@),
{
    law_fingerprint_is_stable(f@, g@, texts(ips@), texts(reordered@), host@);
    let all = texts(ips@).push(host@);
    let s = choose|s: Seq<Seq<char>>|
        {
            &&& #[trigger] texts_sorted(s)
            &&& s.to_multiset() == all.to_multiset()
            &&& f@ == joined(s, ","@)
        };
    broadcast use vstd::seq_lib::group_to_multiset_ensures;

    assert(all[all.len() - 1] == host@);
    assert(all.contains(host@));
    assert(s.to_multiset().count(host@) > 0);
    assert(s.contains(host@));
    let k = choose|k: int| 0 <= k < s.len() && s[k] == host@;
    crate::text::lemma_parts_stand_in_joined(s, ","@, k);
    if 0 <= i < ips@.len() {
        assert(all[i] == ips@[i]@);
        assert(all.contains(ips@[i]@));
        assert(s.to_multiset().count(ips@[i]@) > 0);
        assert(s.contains(ips@[i]@));
        let j = choose|j: int| 0 <= j < s.len() && s[j] == ips@[i]@;
        crate::text::lemma_parts_stand_in_joined(s, ","@, j);
    }
}

/// A certificate is kept just where it is there with its key and was made for the same names and
/// addresses.
pub proof fn law_when_a_certificate_is_made(cert: bool, key: bool, stored: Option<&str>, current: &str, r: bool)
    requires
        call_ensures(needs_regen, (cert, key, stored, current), r),
    ensures
        !cert || !key || stored is None ==> r,
        cert && key && stored is Some ==> (r <==> trimmed(stored->0@) != current@),
{
}

/// A certificate is asked for in the name of this machine, which has to be ASCII, and for those
/// of the configured texts that are addresses.
pub proof fn law_what_a_certificate_is_for(
    cfg: &InboundTlsConfig,
    host: &str,
    r: Result<CertRequest, InboundTlsError>,
    ips: Vec<IpAddr>,
)
    requires
        call_ensures(certificate_request, (cfg, host), r),
        call_ensures(parse_addresses, (&cfg.bind,), ips),
    ensures
        r is Ok <==> forall|i: int| 0 <= i < host@.len() ==> (#[trigger] host@[i] as u32) <= 127,
        r matches Ok(q) ==> q.host@ == host@ && q.ips@ == ips@ && q.common_name@
            == "hushwarren inbound DNS"@ && q.organization@ == "hushwarren"@,
        r matches Err(e) ==> e is CertGen,
{
}

/// A certificate that was made is handed on; otherwise the error tells at which step it failed.
pub proof fn law_certificates_are_handed_on(made: CertMade, r: Result<CertPem, InboundTlsError>)
    requires
        call_ensures(certificate_outcome, (made,), r),
    ensures
        made matches CertMade::Made(p) ==> r == Ok::<CertPem, InboundTlsError>(p),
        made matches CertMade::NoKey(t) ==> (r matches Err(InboundTlsError::CertGen(m)) && m@
            == "key generation error: "@ + t@),
        made matches CertMade::NotSigned(t) ==> (r matches Err(InboundTlsError::CertGen(m)) && m@
            == "certificate signing error: "@ + t@),
{
}

/// A chain is put together just where there is a certificate and a key, as they were read.
pub proof fn law_chains_need_certificate_and_key(
    certs: Result<Vec<Vec<u8>>, String>,
    key: Result<Vec<u8>, String>,
    r: Result<CertDer, InboundTlsError>,
)
    requires
        call_ensures(certificate_chain, (certs, key), r),
    ensures
        r is Ok <==> certs is Ok && certs->Ok_0@.len() > 0 && key is Ok,
        r matches Ok(d) ==> d.certs@ == certs->Ok_0@ && d.key@ == key->Ok_0@,
        r matches Err(e) ==> e is TlsConfig,
{
}

/// A key that is ready is handed on, and another refused.
pub proof fn law_ready_keys_are_handed_on(
    made: Result<rustls::sign::CertifiedKey, String>,
    r: Result<rustls::sign::CertifiedKey, InboundTlsError>,
)
    requires
        call_ensures(signing_outcome, (made,), r),
    ensures
        made matches Ok(k) ==> r == Ok::<rustls::sign::CertifiedKey, InboundTlsError>(k),
        made matches Err(t) ==> (r matches Err(InboundTlsError::TlsConfig(m)) && m@
            == "unsupported key type: "@ + t@),
{
}

/// The configured certificate is used where a path is configured.
pub proof fn law_which_certificate_is_used(cfg: &InboundTlsConfig, r: CertSource)
    requires
        call_ensures(cert_source, (cfg,), r),
    ensures
        r == CertSource::Configured <==> cfg.cert_path@.len() > 0,
        r == CertSource::SelfSigned <==> cfg.cert_path@.len() == 0,
{
}

/// What a failure of the listeners for encrypted queries is called.
pub proof fn law_inbound_errors_are_told(e: &InboundTlsError, r: String)
    requires
        call_ensures(InboundTlsError::message, (e,), r),
    ensures
        *e matches InboundTlsError::Io(s) ==> r@ == "I/O error: "@ + s@,
        *e matches InboundTlsError::CertGen(s) ==> r@ == "certificate generation error: "@ + s@,
        *e matches InboundTlsError::TlsConfig(s) ==> r@ == "TLS configuration error: "@ + s@,
{
}

}
