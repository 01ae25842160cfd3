//! Oblivious DNS over HTTPS: the URLs, the key of the target, the sealed query and its answer.
use vstd::prelude::*;
use vstd::string::*;
use vstd::utf8::encode_utf8;
use crate::api::auth::draw;
use crate::api::auth::{drawn, not_drawn};
use crate::clock::{elapsed_nanos, elapsed_span, is_mono_reading, span_nanos};
use crate::config::OdohUpstreamConfig;
use crate::net::{parse_addresses, IpAddr, SocketAddr};
use crate::net::addresses;
use crate::message::read_message;
use crate::message::message_error;
use crate::padding::pad_dns_query;
use crate::padding::{opt_bytes, padded_query, PaddedModel};
use crate::text::{chars_of, copy_of, index_of, last_index_of, parse_unsigned, string_of, strip_prefix};
use crate::text::{first_index, has_prefix, last_index, texts, unsigned_value};

verus! {

/// How long one query may take, in seconds.
pub const ODOH_TIMEOUT_SECS: u64 = 4;

/// How long the key of a target is used before it is fetched again, in nanoseconds.
pub const CONFIG_CACHE_TTL_NANOS: u128 = 3_600_000_000_000;

/// The content type of queries and answers.
pub const ODOH_CONTENT_TYPE: &'static str = "application/oblivious-dns-message";

/// The path of a target whose URL has none.
pub const DEFAULT_PATH: &'static str = "/dns-query";

/// Number of bytes of randomness that seal a query.
pub const SEED_BYTES: usize = 32;

/// Number of bytes in the number of a query.
pub const ID_BYTES: usize = 2;

/// Errors of an oblivious lookup.
#[derive(Debug)]
pub enum OdohError {
    /// The configuration is unusable.
    Config(String),
    /// The key of the target could not be fetched.
    ConfigFetch(String),
    /// The key of the target could not be read.
    ConfigParse(String),
    /// The query could not be sealed.
    Encrypt(String),
    /// The answer could not be opened.
    Decrypt(String),
    /// The query could not be sent.
    Transport(String),
    /// A DNS message could not be read or written.
    DnsParse(String),
}

/// An error, with its detail as text.
pub enum OdohErrorModel {
    Config(Seq<char>),
    ConfigFetch(Seq<char>),
    ConfigParse(Seq<char>),
    Encrypt(Seq<char>),
    Decrypt(Seq<char>),
    Transport(Seq<char>),
    DnsParse(Seq<char>),
}

impl View for OdohError {
    type V = OdohErrorModel;

    open spec fn view(&self) -> OdohErrorModel {
        match self {
            OdohError::Config(s) => OdohErrorModel::Config(s@),
            OdohError::ConfigFetch(s) => OdohErrorModel::ConfigFetch(s@),
            OdohError::ConfigParse(s) => OdohErrorModel::ConfigParse(s@),
            OdohError::Encrypt(s) => OdohErrorModel::Encrypt(s@),
            OdohError::Decrypt(s) => OdohErrorModel::Decrypt(s@),
            OdohError::Transport(s) => OdohErrorModel::Transport(s@),
            OdohError::DnsParse(s) => OdohErrorModel::DnsParse(s@),
        }
    }
}

/// The message shown for an error.
pub open spec fn odoh_error_text(e: OdohErrorModel) -> Seq<char> {
    match e {
        OdohErrorModel::Config(s) => "ODoH config error: "@ + s,
        OdohErrorModel::ConfigFetch(s) => "ODoH config fetch failed: "@ + s,
        OdohErrorModel::ConfigParse(s) => "ODoH config parse failed: "@ + s,
        OdohErrorModel::Encrypt(s) => "ODoH encrypt failed: "@ + s,
        OdohErrorModel::Decrypt(s) => "ODoH decrypt failed: "@ + s,
        OdohErrorModel::Transport(s) => "ODoH transport error: "@ + s,
        OdohErrorModel::DnsParse(s) => "ODoH DNS parse failed: "@ + s,
    }
}

impl OdohError {
    /// The message shown for the error.
    pub fn message(&self) -> (r: String)
        ensures
            r@ == odoh_error_text(self@),
    {
        match self {
            OdohError::Config(s) => "ODoH config error: ".to_owned().concat(s.as_str()),
            OdohError::ConfigFetch(s) => "ODoH config fetch failed: ".to_owned().concat(s.as_str()),
            OdohError::ConfigParse(s) => "ODoH config parse failed: ".to_owned().concat(s.as_str()),
            OdohError::Encrypt(s) => "ODoH encrypt failed: ".to_owned().concat(s.as_str()),
            OdohError::Decrypt(s) => "ODoH decrypt failed: ".to_owned().concat(s.as_str()),
            OdohError::Transport(s) => "ODoH transport error: ".to_owned().concat(s.as_str()),
            OdohError::DnsParse(s) => "ODoH DNS parse failed: ".to_owned().concat(s.as_str()),
        }
    }
}

// ── URLs ────────────────────────────────────────────────────────────────────

/// The scheme of a URL and what follows it; none for another scheme than `https` and `http`.
pub open spec fn scheme_split(url: Seq<char>) -> Option<(Seq<char>, Seq<char>)> {
    if has_prefix(url, "https://"@) {
        Some(("https"@, url.skip("https://"@.len() as int)))
    } else if has_prefix(url, "http://"@) {
        Some(("http"@, url.skip("http://"@.len() as int)))
    } else {
        None
    }
}

/// The error for a URL with another scheme.
pub open spec fn bad_scheme(url: Seq<char>) -> OdohErrorModel {
    OdohErrorModel::Config("URL must start with https:// or http://: "@ + url)
}

/// The scheme of a URL and what follows it.
pub fn split_scheme(url: &str) -> (r: Result<(String, String), OdohError>)
    ensures
        (match r {
            Ok(p) => scheme_split(url@) == Some((p.0@, p.1@)),
            Err(e) => scheme_split(url@) is None && e@ == bad_scheme(url@),
        }),
{
    match strip_prefix(url, "https://") {
        Some(rest) => {
            return Ok(("https".to_owned(), rest));
        },
        None => {},
    }
    match strip_prefix(url, "http://") {
        Some(rest) => Ok(("http".to_owned(), rest)),
        None => Err(
            OdohError::Config("URL must start with https:// or http://: ".to_owned().concat(url)),
        ),
    }
}

/// What stands in front of the first slash.
pub open spec fn host_part(rest: Seq<char>) -> Seq<char> {
    rest.take(first_index(rest, '/'))
}

/// What stands in front of the first slash, and what follows from the slash on.
fn split_host(rest: &str) -> (r: (String, Option<String>))
    ensures
        r.0@ == host_part(rest@),
        (match r.1 {
            Some(p) => first_index(rest@, '/') < rest@.len() && p@ == rest@.skip(
                first_index(rest@, '/'),
            ),
            None => first_index(rest@, '/') == rest@.len(),
        }),
{
    let v = chars_of(rest);
    let i = index_of(&v, '/');
    let host = string_of(&v, 0, i);
    proof {
        assert(host@ =~= host_part(rest@));
    }
    if i < v.len() {
        let path = string_of(&v, i, v.len());
        proof {
            assert(path@ =~= rest@.skip(i as int));
        }
        (host, Some(path))
    } else {
        (host, None)
    }
}

/// Where the key of a target is fetched.
pub open spec fn configs_url(target: Seq<char>) -> Option<Seq<char>> {
    match scheme_split(target) {
        Some(p) => Some(p.0 + "://"@ + host_part(p.1) + "/.well-known/odohconfigs"@),
        None => None,
    }
}

/// Where the key of a target is fetched.
pub fn odohconfigs_url(target: &str) -> (r: Result<String, OdohError>)
    ensures
        (match r {
            Ok(u) => configs_url(target@) == Some(u@),
            Err(e) => configs_url(target@) is None && e@ == bad_scheme(target@),
        }),
{
    match split_scheme(target) {
        Err(e) => Err(e),
        Ok((scheme, rest)) => {
            let host = split_host(rest.as_str()).0;
            let mut u = scheme;
            u.append("://");
            u.append(host.as_str());
            u.append("/.well-known/odohconfigs");
            Ok(u)
        },
    }
}

/// The host of a URL, with its port where one is written, and the port to connect to: the
/// written one where it is a number, else the one of the scheme.
pub open spec fn url_endpoint(url: Seq<char>) -> Option<(Seq<char>, nat)> {
    match scheme_split(url) {
        None => None,
        Some(p) => {
            let host = host_part(p.1);
            let usual: nat = if p.0 == "https"@ {
                443
            } else {
                80
            };
            let colon = last_index(host, ':');
            let port = if colon < 0 {
                usual
            } else {
                match unsigned_value(host.skip(colon + 1), 65535) {
                    Some(n) => n,
                    None => usual,
                }
            };
            Some((host, port))
        },
    }
}

/// The host and the port of a URL.
pub fn parse_url(url: &str) -> (r: Result<(String, u16), OdohError>)
    ensures
        (match r {
            Ok(p) => url_endpoint(url@) == Some((p.0@, p.1 as nat)),
            Err(e) => url_endpoint(url@) is None && e@ == bad_scheme(url@),
        }),
{
    let (scheme, rest) = match split_scheme(url) {
        Ok(p) => p,
        Err(e) => {
            return Err(e);
        },
    };
    let host = split_host(rest.as_str()).0;
    let usual: u16 = if crate::text::same_text(scheme.as_str(), "https") {
        443
    } else {
        80
    };
    let v = chars_of(host.as_str());
    let port: u16 = match last_index_of(&v, ':') {
        None => usual,
        Some(colon) => {
            let n: usize = v.len();
            let t = string_of(&v, colon + 1, n);
            proof {
                assert(t@ =~= host@.skip(colon + 1));
            }
            match parse_unsigned(t.as_str(), 65535) {
                Some(n) => n as u16,
                None => usual,
            }
        },
    };
    Ok((host, port))
}

/// The host and the path of a URL; one without a path has the usual one.
pub open spec fn url_host_path(url: Seq<char>) -> Option<(Seq<char>, Seq<char>)> {
    match scheme_split(url) {
        None => None,
        Some(p) => {
            let i = first_index(p.1, '/');
            Some(
                (
                    host_part(p.1),
                    if i < p.1.len() {
                        p.1.skip(i)
                    } else {
                        DEFAULT_PATH@
                    },
                ),
            )
        },
    }
}

/// The host and the path of a URL.
pub fn parse_https_url(url: &str) -> (r: Result<(String, String), OdohError>)
    ensures
        (match r {
            Ok(p) => url_host_path(url@) == Some((p.0@, p.1@)),
            Err(e) => url_host_path(url@) is None && e@ == bad_scheme(url@),
        }),
{
    match split_scheme(url) {
        Err(e) => Err(e),
        Ok((_, rest)) => match split_host(rest.as_str()) {
            (host, Some(path)) => Ok((host, path)),
            (host, None) => Ok((host, copy_of(DEFAULT_PATH))),
        },
    }
}

/// A byte that stands for itself in a query parameter.
pub open spec fn is_unreserved(b: u8) -> bool {
    ||| 0x41 <= b <= 0x5a
    ||| 0x61 <= b <= 0x7a
    ||| 0x30 <= b <= 0x39
    ||| b == 0x2d
    ||| b == 0x5f
    ||| b == 0x2e
    ||| b == 0x7e
    ||| b == 0x2f
}

/// The upper-case hexadecimal digit `d`.
pub open spec fn upper_hex(d: nat) -> char {
    if d < 10 {
        ((0x30 + d) as u32) as char
    } else {
        ((0x37 + d) as u32) as char
    }
}

/// The bytes with all but the unreserved ones escaped.
pub open spec fn escaped(b: Seq<u8>) -> Seq<char>
    decreases b.len(),
{
    if b.len() == 0 {
        Seq::<char>::empty()
    } else if is_unreserved(b.last()) {
        escaped(b.drop_last()).push((b.last() as u32) as char)
    } else {
        escaped(b.drop_last()).push('%').push(upper_hex(b.last() as nat / 16)).push(
            upper_hex(b.last() as nat % 16),
        )
    }
}

/// The upper-case hexadecimal digit `d`.
fn upper_hex_char(d: u8) -> (r: char)
    requires
        d < 16,
    ensures
        r == upper_hex(d as nat),
{
    if d < 10 {
        (0x30 + d) as char
    } else {
        (0x37 + d) as char
    }
}

/// The text with all but its unreserved characters and slashes escaped.
pub fn percent_encode(s: &str) -> (r: String)
    ensures
        r@ == escaped(encode_utf8(s@)),
{
    let b = s.as_bytes();
    let ghost all = encode_utf8(s@);
    let mut out = String::new();
    let mut i: usize = 0;
    while i < b.len()
        invariant
            0 <= i <= b.len(),
            b@ == all,
            out@ == escaped(all.take(i as int)),
        decreases b.len() - i,
    {
        let c: u8 = b[i];
        proof {
            assert(all.take(i + 1).drop_last() =~= all.take(i as int));
            assert(all.take(i + 1).last() == c);
        }
        if (0x41 <= c && c <= 0x5a) || (0x61 <= c && c <= 0x7a) || (0x30 <= c && c <= 0x39) || c
            == 0x2d || c == 0x5f || c == 0x2e || c == 0x7e || c == 0x2f {
            out.push(c as char);
        } else {
            out.push('%');
            out.push(upper_hex_char(c / 16));
            out.push(upper_hex_char(c % 16));
        }
        i += 1;
    }
    proof {
        assert(all.take(i as int) =~= all);
    }
    out
}

/// A character that an escaped text may hold.
pub open spec fn is_escape_char(c: char) -> bool {
    c == '%' || (c as u32 <= 0x7f && is_unreserved(c as u8))
}

/// An escaped text holds unreserved characters, slashes and percent signs only: nothing that
/// would end the parameter or start another one.
pub proof fn law_escaped_text_stays_in_its_parameter(b: Seq<u8>)
    ensures
        forall|i: int| 0 <= i < escaped(b).len() ==> is_escape_char(#[trigger] escaped(b)[i]),
        !escaped(b).contains('&'),
        !escaped(b).contains('?'),
        !escaped(b).contains('#'),
        !escaped(b).contains(':'),
    decreases b.len(),
{
    if b.len() > 0 {
        law_escaped_text_stays_in_its_parameter(b.drop_last());
        let e = escaped(b.drop_last());
        assert forall|i: int| 0 <= i < escaped(b).len() implies is_escape_char(
            #[trigger] escaped(b)[i],
        ) by {
            if i < e.len() {
                assert(escaped(b)[i] == e[i]);
            }
        }
    }
    assert forall|i: int| 0 <= i < escaped(b).len() implies #[trigger] escaped(b)[i] != '&'
        && escaped(b)[i] != '?' && escaped(b)[i] != '#' && escaped(b)[i] != ':' by {
        assert(is_escape_char(escaped(b)[i]));
    }
}

/// A text of unreserved characters and slashes is kept as it is.
pub proof fn law_unreserved_text_is_kept(b: Seq<u8>)
    requires
        forall|i: int| 0 <= i < b.len() ==> is_unreserved(#[trigger] b[i]),
    ensures
        escaped(b) == b.map_values(|x: u8| (x as u32) as char),
    decreases b.len(),
{
    if b.len() > 0 {
        let f = b.drop_last();
        assert forall|i: int| 0 <= i < f.len() implies is_unreserved(#[trigger] f[i]) by {
            assert(f[i] == b[i]);
        }
        law_unreserved_text_is_kept(f);
        assert(is_unreserved(b[b.len() - 1]));
    }
    assert(escaped(b) =~= b.map_values(|x: u8| (x as u32) as char));
}

// ── Configuration ───────────────────────────────────────────────────────────

/// The addresses, each with the port.
pub open spec fn with_port(ips: Seq<IpAddr>, port: u16) -> Seq<SocketAddr> {
    ips.map_values(|ip: IpAddr| SocketAddr { ip, port })
}

/// The addresses, each with the port.
fn at_port(ips: &Vec<IpAddr>, port: u16) -> (r: Vec<SocketAddr>)
    ensures
        r@ == with_port(ips@, port),
{
    let mut r: Vec<SocketAddr> = Vec::new();
    let mut i: usize = 0;
    while i < ips.len()
        invariant
            0 <= i <= ips.len(),
            r@ == with_port(ips@.take(i as int), port),
        decreases ips.len() - i,
    {
        r.push(SocketAddr { ip: ips[i], port });
        proof {
            assert(with_port(ips@.take(i + 1), port) =~= with_port(ips@.take(i as int), port).push(
                SocketAddr { ip: ips@[i as int], port },
            ));
        }
        i += 1;
    }
    proof {
        assert(ips@.take(i as int) =~= ips@);
    }
    r
}

/// A host and the addresses at which it is reached, so that it is never looked up.
#[derive(Debug)]
pub struct PinnedHost {
    pub host: String,
    pub addrs: Vec<SocketAddr>,
}

/// The hosts of the target and of the relay, where there is one.
#[derive(Debug)]
pub struct PinnedHosts {
    pub target: PinnedHost,
    pub relay: Option<PinnedHost>,
}

/// `h` is the host of `url`, reached at the addresses.
pub open spec fn pinned(h: PinnedHost, url: Seq<char>, ips: Seq<IpAddr>) -> bool {
    url_endpoint(url) matches Some(p) && h.host@ == p.0 && h.addrs@ == with_port(ips, p.1 as u16)
}

/// The error for a configuration without an address.
pub open spec fn no_addresses() -> OdohErrorModel {
    OdohErrorModel::Config("bootstrap_ips contains no valid IP addresses"@)
}

/// The hosts and addresses that an HTTP client is built with.
pub fn pin_hosts(cfg: &OdohUpstreamConfig) -> (r: Result<PinnedHosts, OdohError>)
    ensures
        ({
            let ips = addresses(texts(cfg.bootstrap_ips@));
            match r {
                Ok(h) => {
                    &&& ips.len() > 0
                    &&& pinned(h.target, cfg.target@, ips)
                    &&& h.relay is Some <==> cfg.relay@.len() > 0
                    &&& h.relay is Some ==> pinned(h.relay->0, cfg.relay@, ips)
                },
                Err(e) => if url_endpoint(cfg.target@) is None {
                    e@ == bad_scheme(cfg.target@)
                } else if ips.len() == 0 {
                    e@ == no_addresses()
                } else {
                    cfg.relay@.len() > 0 && url_endpoint(cfg.relay@) is None && e@ == bad_scheme(
                        cfg.relay@,
                    )
                },
            }
        }),
{
    let (host, port) = match parse_url(cfg.target.as_str()) {
        Ok(p) => p,
        Err(e) => {
            return Err(e);
        },
    };
    let ips = parse_addresses(&cfg.bootstrap_ips);
    if ips.len() == 0 {
        return Err(
            OdohError::Config("bootstrap_ips contains no valid IP addresses".to_owned()),
        );
    }
    let target = PinnedHost { host, addrs: at_port(&ips, port) };
    if cfg.relay.as_str().is_empty() {
        return Ok(PinnedHosts { target, relay: None });
    }
    match parse_url(cfg.relay.as_str()) {
        Ok((host, port)) => Ok(
            PinnedHosts { target, relay: Some(PinnedHost { host, addrs: at_port(&ips, port) }) },
        ),
        Err(e) => Err(e),
    }
}

/// Where a query is posted: to the target itself, or to the relay, which is told the target.
pub open spec fn query_url(target: Seq<char>, relay: Seq<char>) -> Option<Seq<char>> {
    if relay.len() == 0 {
        Some(target)
    } else {
        match url_host_path(target) {
            Some(p) => Some(
                relay + "?targethost="@ + escaped(encode_utf8(p.0)) + "&targetpath="@ + escaped(
                    encode_utf8(p.1),
                ),
            ),
            None => None,
        }
    }
}

// ── The key of the target ───────────────────────────────────────────────────

/// The keys in a list of configurations that `odoh_rs::parse` reads and
/// `ObliviousDoHConfigs::supported` picks, in order, each as `odoh_rs::compose` writes it; the
/// error as text where the list cannot be read.
pub uninterp spec fn keys_in(body: Seq<u8>) -> Result<Seq<Seq<u8>>, Seq<char>>;

/// The bytes of each vector.
pub open spec fn byte_lists(v: Seq<Vec<u8>>) -> Seq<Seq<u8>> {
    v.map_values(|b: Vec<u8>| b@)
}

/// `odoh_rs::parse` on a list of configurations, and `ObliviousDoHConfigs::supported`: the
/// keys of the supported version, each written by `odoh_rs::compose`.  They are a function of
/// the bytes.
#[verifier::external_body]
fn read_keys(body: &[u8]) -> (r: Result<Vec<Vec<u8>>, String>)
    ensures
        (match r {
            Ok(v) => keys_in(body@) == Ok::<Seq<Seq<u8>>, Seq<char>>(byte_lists(v@)),
            Err(e) => keys_in(body@) == Err::<Seq<Seq<u8>>, Seq<char>>(e@),
        }),
{
    let mut buf = body;
    odoh_rs::parse::<odoh_rs::ObliviousDoHConfigs, &[u8]>(&mut buf)
        .map(odoh_rs::ObliviousDoHConfigs::supported)
        .and_then(|list| {
            list.into_iter()
                .map(|c| odoh_rs::compose(&odoh_rs::ObliviousDoHConfigContents::from(c)))
                .map(|b| b.map(|b| b.to_vec()))
                .collect()
        })
        .map_err(|e| e.to_string())
}

/// The first of the keys.
pub fn first_key(keys: Vec<Vec<u8>>) -> (r: Result<Vec<u8>, OdohError>)
    ensures
        (match r {
            Ok(k) => keys@.len() > 0 && k@ == keys@[0]@,
            Err(e) => keys@.len() == 0 && e@ == OdohErrorModel::ConfigParse(
                "no supported ODoH config in response"@,
            ),
        }),
{
    if keys.len() == 0 {
        return Err(OdohError::ConfigParse("no supported ODoH config in response".to_owned()));
    }
    let mut keys = keys;
    Ok(keys.remove(0))
}

/// The key of a target, out of the list that the target serves: the first that is supported.
pub fn target_key(body: &[u8]) -> (r: Result<Vec<u8>, OdohError>)
    ensures
        (match keys_in(body@) {
            Err(t) => r matches Err(e) && e@ == OdohErrorModel::ConfigParse(t),
            Ok(keys) => match r {
                Ok(k) => keys.len() > 0 && k@ == keys[0],
                Err(e) => keys.len() == 0 && e@ == OdohErrorModel::ConfigParse(
                    "no supported ODoH config in response"@,
                ),
            },
        }),
{
    match read_keys(body) {
        Err(t) => Err(OdohError::ConfigParse(t)),
        Ok(keys) => first_key(keys),
    }
}

/// A key that was fetched, and when.
#[derive(Debug)]
pub struct CachedConfig {
    /// The key.
    pub contents: Vec<u8>,
    /// When it was fetched.
    pub fetched_at: std::time::Instant,
}

/// Whether a key of this age is still used.
pub fn fresh_at_age(age_nanos: u128) -> (r: bool)
    ensures
        r == (age_nanos < CONFIG_CACHE_TTL_NANOS),
{
    age_nanos < CONFIG_CACHE_TTL_NANOS
}

impl CachedConfig {
    /// Whether the key is still used, at the age that the clock gives it.
    pub fn is_fresh(&self) -> (r: bool)
        ensures
            exists|age: u128| #[trigger]
                elapsed_nanos(self.fetched_at, age) && r == (age < CONFIG_CACHE_TTL_NANOS),
    {
        let d = self.fetched_at.elapsed();
        let age: u128 = d.as_nanos();
        proof {
            assert(elapsed_span(self.fetched_at, d));
            assert(span_nanos(d, age));
            assert(elapsed_nanos(self.fetched_at, age));
        }
        fresh_at_age(age)
    }
}

/// What a lookup does next.
#[derive(Debug, Clone, Copy, PartialEq, Eq, Structural)]
pub enum LookupStep {
    /// Fetch the key of the target.
    FetchKey,
    /// Send a query under the cached key.
    QueryCached,
    /// Send a query under the key that was just fetched.
    QueryFetched,
    /// Hand the result on.
    Done,
}

/// What a query came to.
#[derive(Debug, Clone, Copy, PartialEq, Eq, Structural)]
pub enum QueryEnd {
    Answered,
    /// The answer could not be opened: the target may have another key by now.
    NotOpened,
    Failed,
}

/// How a lookup starts.
pub fn lookup_start(have_fresh_key: bool) -> (r: LookupStep)
    ensures
        r == if have_fresh_key {
            LookupStep::QueryCached
        } else {
            LookupStep::FetchKey
        },
{
    if have_fresh_key {
        LookupStep::QueryCached
    } else {
        LookupStep::FetchKey
    }
}

/// What follows a query: one under a cached key whose answer cannot be opened is repeated under
/// a fetched one.
pub open spec fn step_after_query(step: LookupStep, end: QueryEnd) -> LookupStep {
    if step == LookupStep::QueryCached && end == QueryEnd::NotOpened {
        LookupStep::FetchKey
    } else {
        LookupStep::Done
    }
}

/// What follows a query.  Where the key is fetched again, the cached one is dropped first.
pub fn after_query(step: LookupStep, end: QueryEnd) -> (r: LookupStep)
    ensures
        r == step_after_query(step, end),
{
    match (step, end) {
        (LookupStep::QueryCached, QueryEnd::NotOpened) => LookupStep::FetchKey,
        _ => LookupStep::Done,
    }
}

/// What follows the fetch of a key.
pub fn after_fetch(fetched: bool) -> (r: LookupStep)
    ensures
        r == if fetched {
            LookupStep::QueryFetched
        } else {
            LookupStep::Done
        },
{
    if fetched {
        LookupStep::QueryFetched
    } else {
        LookupStep::Done
    }
}

/// A lookup repeats a query at most once: whatever a query under a fetched key comes to, the
/// lookup is done.
pub proof fn law_one_retry_at_most(end: QueryEnd)
    ensures
        step_after_query(LookupStep::QueryFetched, end) == LookupStep::Done,
        step_after_query(LookupStep::QueryCached, end) != LookupStep::QueryCached,
{
}

// ── Queries ─────────────────────────────────────────────────────────────────

/// The query for a name and a record type that `Message::to_vec` writes, with the given number,
/// and with recursion asked for or not; the error as text where there is none.
pub uninterp spec fn query_message(
    name: Seq<char>,
    rtype: u16,
    id: u16,
    recursion: bool,
) -> Result<Seq<u8>, Seq<char>>;

/// The head of a query: its number, whether recursion is asked for, one question and no record.
pub open spec fn is_message_head(b: Seq<u8>, id: u16, recursion: bool) -> bool {
    &&& b.len() >= 12
    &&& b[0] == id / 256
    &&& b[1] == id % 256
    &&& b[2] == if recursion {
        1u8
    } else {
        0u8
    }
    &&& b.subrange(3, 12) == seq![0u8, 0, 1, 0, 0, 0, 0, 0, 0]
}

/// The query for a name and a record type, with the given number; the error as text where there
/// is none.  Queries ask for recursion.
pub open spec fn query_wire(name: Seq<char>, rtype: u16, id: u16) -> Result<Seq<u8>, Seq<char>> {
    query_message(name, rtype, id, true)
}

/// The head of a query: its number, recursion asked for, one question and no record.
pub open spec fn is_query_head(b: Seq<u8>, id: u16) -> bool {
    is_message_head(b, id, true)
}

/// `hickory_proto::op::Message::to_vec` on a fresh query with one question, whose name
/// `Name::from_ascii` reads.  The result is a function of the arguments.  It starts with the
/// twelve bytes of a head that counts one question and no record of any section.
#[verifier::external_body]
fn encode_query(name: &str, rtype: u16, id: u16, recursion: bool) -> (r: Result<Vec<u8>, String>)
    ensures
        (match r {
            Ok(b) => query_message(name@, rtype, id, recursion) == Ok::<Seq<u8>, Seq<char>>(b@)
                && is_message_head(b@, id, recursion),
            Err(e) => query_message(name@, rtype, id, recursion) == Err::<Seq<u8>, Seq<char>>(e@),
        }),
{
    let qname = hickory_proto::rr::Name::from_ascii(name).map_err(|e| e.to_string())?;
    let mut msg = hickory_proto::op::Message::new(
        id,
        hickory_proto::op::MessageType::Query,
        hickory_proto::op::OpCode::Query,
    );
    msg.metadata.recursion_desired = recursion;
    msg.add_query(hickory_proto::op::Query::query(qname, rtype.into()));
    msg.to_vec().map_err(|e| e.to_string())
}

/// The query for a name and a record type, with the given number.
pub fn query_with_id(name: &str, rtype: u16, id: u16) -> (r: Result<Vec<u8>, OdohError>)
    ensures
        (match r {
            Ok(b) => query_wire(name@, rtype, id) == Ok::<Seq<u8>, Seq<char>>(b@) && is_query_head(
                b@,
                id,
            ),
            Err(e) => query_wire(name@, rtype, id) is Err && e@ == OdohErrorModel::DnsParse(
                query_wire(name@, rtype, id)->Err_0,
            ),
        }),
{
    match encode_query(name, rtype, id, true) {
        Ok(b) => Ok(b),
        Err(e) => Err(OdohError::DnsParse(e)),
    }
}

/// The number that two bytes spell, the high one first.
pub open spec fn number_of(b: Seq<u8>) -> u16 {
    (b[0] * 256 + b[1]) as u16
}

/// `id` is a number that was drawn for a query.
pub open spec fn is_drawn_id(id: u16) -> bool {
    exists|b: Seq<u8>| #[trigger] drawn(ID_BYTES, b) && id == number_of(b)
}

/// `e` says why there is no query for the name and the record type: no number could be drawn,
/// or the query cannot be written.
pub open spec fn is_query_error(name: Seq<char>, rtype: u16, e: OdohErrorModel) -> bool {
    ||| exists|t: Seq<char>| #[trigger] not_drawn(ID_BYTES, t) && e == OdohErrorModel::Encrypt(t)
    ||| exists|id: u16| #[trigger]
        is_drawn_id(id) && query_wire(name, rtype, id) is Err && e == OdohErrorModel::DnsParse(
            query_wire(name, rtype, id)->Err_0,
        )
}

/// The query for a name and a record type, with a number left to chance.  It holds no record of
/// any section, so nothing about the client either.
pub fn build_dns_query(name: &str, rtype: u16) -> (r: Result<Vec<u8>, OdohError>)
    ensures
        (match r {
            Ok(b) => exists|id: u16| #[trigger]
                is_drawn_id(id) && query_wire(name@, rtype, id) == Ok::<Seq<u8>, Seq<char>>(b@)
                    && is_query_head(b@, id),
            Err(e) => is_query_error(name@, rtype, e@),
        }),
{
    match draw(ID_BYTES) {
        Ok(b) => {
            let id: u16 = b[0] as u16 * 256 + b[1] as u16;
            proof {
                assert(id == number_of(b@));
                assert(is_drawn_id(id));
            }
            query_with_id(name, rtype, id)
        },
        Err(e) => Err(OdohError::Encrypt(e)),
    }
}

/// The bytes that are sealed: the query, padded where that is asked for.
pub open spec fn plaintext_of(raw: Seq<u8>, pad: bool) -> Result<Seq<u8>, Seq<char>> {
    if !pad {
        Ok(raw)
    } else {
        match padded_query(raw) {
            PaddedModel::Padded(p) => Ok(p),
            PaddedModel::Refused(t) => Err("EDNS padding error: padding build error: "@ + t),
            PaddedModel::Uneven(n) => Err(
                "EDNS padding error: padding invariant violated: len="@ + crate::text::decimal(n)
                    + " block=128"@,
            ),
        }
    }
}

/// The query that is sealed, padded where that is asked for.
pub fn query_plaintext(raw: Vec<u8>, pad: bool) -> (r: Result<Vec<u8>, OdohError>)
    ensures
        (match r {
            Ok(b) => plaintext_of(raw@, pad) == Ok::<Seq<u8>, Seq<char>>(b@),
            Err(e) => plaintext_of(raw@, pad) is Err && e@ == OdohErrorModel::Encrypt(
                plaintext_of(raw@, pad)->Err_0,
            ),
        }),
        pad ==> (r matches Ok(b) ==> b@.len() % 128 == 0),
{
    if !pad {
        return Ok(raw);
    }
    match pad_dns_query(raw.as_slice()) {
        Ok(p) => Ok(p),
        Err(e) => {
            let m = e.message();
            let t = "EDNS padding error: ".to_owned().concat(m.as_str());
            proof {
                reveal_strlit("EDNS padding error: ");
                reveal_strlit("padding build error: ");
                reveal_strlit("EDNS padding error: padding build error: ");
                reveal_strlit("padding invariant violated: len=");
                reveal_strlit("EDNS padding error: padding invariant violated: len=");
                reveal_strlit(" block=");
                reveal_strlit(" block=128");
                reveal_with_fuel(crate::text::decimal, 3);
                assert(crate::text::decimal(128) =~= seq!['1', '2', '8']);
                assert(t@ =~= plaintext_of(raw@, pad)->Err_0);
            }
            Err(OdohError::Encrypt(t))
        },
    }
}

/// A sealed query, and the secret that opens its answer.
#[derive(Debug)]
pub struct SealedQuery {
    pub message: Vec<u8>,
    pub secret: Vec<u8>,
}

/// The message and the secret that `odoh_rs::encrypt_query` makes of a query, a key and the
/// randomness of a seed; the error as text where it makes none.
pub uninterp spec fn sealed(query: Seq<u8>, key: Seq<u8>, seed: Seq<u8>) -> Result<
    (Seq<u8>, Seq<u8>),
    Seq<char>,
>;

/// `odoh_rs::encrypt_query` on a query without padding of its own, under a key that
/// `odoh_rs::compose` wrote, with `StdRng` seeded by the given bytes.  The result is a function
/// of the arguments.  A message starts with the byte 1, and a secret has 16 bytes.
#[verifier::external_body]
fn encrypt_query(query: &[u8], key: &[u8], seed: &Vec<u8>) -> (r: Result<SealedQuery, String>)
    requires
        seed@.len() == SEED_BYTES,
    ensures
        (match r {
            Ok(s) => sealed(query@, key@, seed@) == Ok::<(Seq<u8>, Seq<u8>), Seq<char>>(
                (s.message@, s.secret@),
            ) && s.message@.len() > 0 && s.message@[0] == 1 && s.secret@.len() == 16,
            Err(e) => sealed(query@, key@, seed@) == Err::<(Seq<u8>, Seq<u8>), Seq<char>>(e@),
        }),
{
    let mut rng_seed = [0u8; 32];
    rng_seed.copy_from_slice(seed);
    let mut rng = <rand::rngs::StdRng as rand::SeedableRng>::from_seed(rng_seed);
    let plain = odoh_rs::ObliviousDoHMessagePlaintext::new(query, 0);
    let mut buf = key;
    let (m, secret) = odoh_rs::parse::<odoh_rs::ObliviousDoHConfigContents, &[u8]>(&mut buf)
        .and_then(|k| odoh_rs::encrypt_query(&plain, &k, &mut rng))
        .map_err(|e| e.to_string())?;
    let message = odoh_rs::compose(&m).map_err(|e| e.to_string())?;
    Ok(SealedQuery { message: message.to_vec(), secret: secret.to_vec() })
}

/// Seals a query under the key of a target, with the randomness of a seed.
pub fn seal_query(query: &[u8], key: &[u8], seed: &Vec<u8>) -> (r: Result<SealedQuery, OdohError>)
    requires
        seed@.len() == SEED_BYTES,
    ensures
        (match r {
            Ok(s) => sealed(query@, key@, seed@) == Ok::<(Seq<u8>, Seq<u8>), Seq<char>>(
                (s.message@, s.secret@),
            ) && s.secret@.len() == 16,
            Err(e) => sealed(query@, key@, seed@) is Err && e@ == OdohErrorModel::Encrypt(
                sealed(query@, key@, seed@)->Err_0,
            ),
        }),
{
    match encrypt_query(query, key, seed) {
        Ok(s) => Ok(s),
        Err(e) => Err(OdohError::Encrypt(e)),
    }
}

/// A query that is ready to be posted: what was sealed, the sealed message and the secret.
#[derive(Debug)]
pub struct PreparedQuery {
    pub plaintext: Vec<u8>,
    pub sealed: SealedQuery,
}

/// `plain` is a query for the name and the record type, padded where that is asked for.
pub open spec fn is_plaintext(name: Seq<char>, rtype: u16, pad: bool, plain: Seq<u8>) -> bool {
    exists|id: u16|
        {
            &&& #[trigger] is_drawn_id(id)
            &&& query_wire(name, rtype, id) is Ok
            &&& plaintext_of(query_wire(name, rtype, id)->Ok_0, pad) == Ok::<Seq<u8>, Seq<char>>(
                plain,
            )
        }
}

/// `p` is a query for the name and the record type, sealed under the key with a seed that was
/// drawn for it.
pub open spec fn is_prepared(
    name: Seq<char>,
    rtype: u16,
    pad: bool,
    key: Seq<u8>,
    p: PreparedQuery,
) -> bool {
    &&& p.sealed.secret@.len() == 16
    &&& pad ==> p.plaintext@.len() % 128 == 0
    &&& is_plaintext(name, rtype, pad, p.plaintext@)
    &&& exists|seed: Seq<u8>| #[trigger]
        drawn(SEED_BYTES, seed) && sealed(p.plaintext@, key, seed) == Ok::<
            (Seq<u8>, Seq<u8>),
            Seq<char>,
        >((p.sealed.message@, p.sealed.secret@))
}

/// A query that was written cannot be padded, and `t` says why.
pub open spec fn is_unpadded(name: Seq<char>, rtype: u16, pad: bool, t: Seq<char>) -> bool {
    exists|id: u16|
        {
            &&& #[trigger] is_drawn_id(id)
            &&& query_wire(name, rtype, id) is Ok
            &&& plaintext_of(query_wire(name, rtype, id)->Ok_0, pad) == Err::<Seq<u8>, Seq<char>>(t)
        }
}

/// A query that was written cannot be sealed under the key, and `t` says why.
pub open spec fn is_unsealed(
    name: Seq<char>,
    rtype: u16,
    pad: bool,
    key: Seq<u8>,
    t: Seq<char>,
) -> bool {
    exists|plain: Seq<u8>, seed: Seq<u8>|
        {
            &&& #[trigger] is_plaintext(name, rtype, pad, plain)
            &&& #[trigger] drawn(SEED_BYTES, seed)
            &&& sealed(plain, key, seed) == Err::<(Seq<u8>, Seq<u8>), Seq<char>>(t)
        }
}

/// `e` says why a query was not prepared.
pub open spec fn is_prepare_error(
    name: Seq<char>,
    rtype: u16,
    pad: bool,
    key: Seq<u8>,
    e: OdohErrorModel,
) -> bool {
    ||| is_query_error(name, rtype, e)
    ||| e matches OdohErrorModel::Encrypt(t) && (is_unpadded(name, rtype, pad, t) || not_drawn(
        SEED_BYTES,
        t,
    ) || is_unsealed(name, rtype, pad, key, t))
}

/// The query for a name and a record type, padded where that is asked for, and sealed under the
/// key of a target.  Its number and the randomness of the seal are left to chance.
pub fn prepare_query(name: &str, rtype: u16, pad: bool, key: &[u8]) -> (r: Result<
    PreparedQuery,
    OdohError,
>)
    ensures
        (match r {
            Ok(p) => is_prepared(name@, rtype, pad, key@, p),
            Err(e) => is_prepare_error(name@, rtype, pad, key@, e@),
        }),
{
    let raw = match build_dns_query(name, rtype) {
        Ok(b) => b,
        Err(e) => {
            return Err(e);
        },
    };
    let plaintext = match query_plaintext(raw, pad) {
        Ok(b) => b,
        Err(e) => {
            return Err(e);
        },
    };
    proof {
        assert(is_plaintext(name@, rtype, pad, plaintext@));
    }
    let seed = match draw(SEED_BYTES) {
        Ok(b) => b,
        Err(e) => {
            return Err(OdohError::Encrypt(e));
        },
    };
    match seal_query(plaintext.as_slice(), key, &seed) {
        Ok(sealed) => {
            let p = PreparedQuery { plaintext, sealed };
            proof {
                assert(drawn(SEED_BYTES, seed@));
            }
            Ok(p)
        },
        Err(e) => Err(e),
    }
}

/// The DNS message that `odoh_rs::decrypt_response` opens; the error as text where it opens
/// none.
pub uninterp spec fn opened(query: Seq<u8>, response: Seq<u8>, secret: Seq<u8>) -> Result<
    Seq<u8>,
    Seq<char>,
>;

/// `odoh_rs::decrypt_response` on a response that `odoh_rs::parse` reads, for a query without
/// padding of its own and the secret it was sealed with.  The result is a function of the
/// arguments.
#[verifier::external_body]
fn decrypt_response(query: &[u8], response: &[u8], secret: &Vec<u8>) -> (r: Result<Vec<u8>, String>)
    requires
        secret@.len() == 16,
    ensures
        (match r {
            Ok(b) => opened(query@, response@, secret@) == Ok::<Seq<u8>, Seq<char>>(b@),
            Err(e) => opened(query@, response@, secret@) == Err::<Seq<u8>, Seq<char>>(e@),
        }),
{
    let mut key = odoh_rs::OdohSecret::default();
    key.copy_from_slice(secret);
    let plain = odoh_rs::ObliviousDoHMessagePlaintext::new(query, 0);
    let mut buf = response;
    odoh_rs::parse::<odoh_rs::ObliviousDoHMessage, &[u8]>(&mut buf)
        .and_then(|m| odoh_rs::decrypt_response(&plain, &m, key))
        .map(|p| p.into_msg().to_vec())
        .map_err(|e| e.to_string())
}

/// What an opened answer comes to: it has to be a DNS message.
pub fn accept_answer(opened: Result<Vec<u8>, String>) -> (r: Result<Vec<u8>, OdohError>)
    ensures
        (match opened {
            Err(t) => r matches Err(e) && e@ == OdohErrorModel::Decrypt(t@),
            Ok(b) => match message_error(b@) {
                Some(t) => r matches Err(e) && e@ == OdohErrorModel::DnsParse(t),
                None => r matches Ok(m) && m@ == b@,
            },
        }),
{
    match opened {
        Err(t) => Err(OdohError::Decrypt(t)),
        Ok(b) => match read_message(b.as_slice()) {
            Err(t) => Err(OdohError::DnsParse(t)),
            Ok(_) => Ok(b),
        },
    }
}

/// Opens the answer to a query.
pub fn open_answer(query: &[u8], response: &[u8], secret: &Vec<u8>) -> (r: Result<
    Vec<u8>,
    OdohError,
>)
    requires
        secret@.len() == 16,
    ensures
        (match opened(query@, response@, secret@) {
            Err(t) => r matches Err(e) && e@ == OdohErrorModel::Decrypt(t),
            Ok(b) => match message_error(b) {
                Some(t) => r matches Err(e) && e@ == OdohErrorModel::DnsParse(t),
                None => r matches Ok(m) && m@ == b,
            },
        }),
{
    accept_answer(decrypt_response(query, response, secret))
}

/// What an error means for the lookup.
pub fn query_end(r: &Result<Vec<u8>, OdohError>) -> (e: QueryEnd)
    ensures
        e == match *r {
            Ok(_) => QueryEnd::Answered,
            Err(OdohError::Decrypt(_)) => QueryEnd::NotOpened,
            Err(_) => QueryEnd::Failed,
        },
{
    match r {
        Ok(_) => QueryEnd::Answered,
        Err(OdohError::Decrypt(_)) => QueryEnd::NotOpened,
        Err(_) => QueryEnd::Failed,
    }
}

/// Whether the key endpoint answered: its status line where it refused.
pub fn check_config_status(success: bool, status: &str) -> (r: Result<(), OdohError>)
    ensures
        (match r {
            Ok(()) => success,
            Err(e) => !success && e@ == OdohErrorModel::ConfigFetch(
                "odohconfigs endpoint returned HTTP "@ + status@,
            ),
        }),
{
    if success {
        Ok(())
    } else {
        Err(
            OdohError::ConfigFetch("odohconfigs endpoint returned HTTP ".to_owned().concat(status)),
        )
    }
}

/// Whether the server answered: its status line where it refused.
pub fn check_query_status(success: bool, status: &str) -> (r: Result<(), OdohError>)
    ensures
        (match r {
            Ok(()) => success,
            Err(e) => !success && e@ == OdohErrorModel::Transport(
                "ODoH server returned HTTP "@ + status@,
            ),
        }),
{
    if success {
        Ok(())
    } else {
        Err(OdohError::Transport("ODoH server returned HTTP ".to_owned().concat(status)))
    }
}

// ── The rung ────────────────────────────────────────────────────────────────

/// The oblivious way upstream: its configuration and the key of the target.
#[derive(Debug)]
pub struct OdohRung {
    cfg: OdohUpstreamConfig,
    hosts: PinnedHosts,
    config_cache: Option<CachedConfig>,
    pad: bool,
}

impl OdohRung {
    /// The configuration.
    pub closed spec fn config(&self) -> OdohUpstreamConfig {
        self.cfg
    }

    /// Whether queries are padded.
    pub closed spec fn pads(&self) -> bool {
        self.pad
    }

    /// The hosts and addresses that the HTTP client is built with.
    pub closed spec fn pinned_hosts(&self) -> PinnedHosts {
        self.hosts
    }

    /// The key that was fetched last and not dropped since.
    pub closed spec fn cached_key(&self) -> Option<Seq<u8>> {
        match self.config_cache {
            Some(c) => Some(c.contents@),
            None => None,
        }
    }

    /// When that key was fetched.
    pub closed spec fn cached_at(&self) -> std::time::Instant {
        self.config_cache->0.fetched_at
    }

    /// What comes of building a rung: the configuration has to name a target and an address, and
    /// a relay that is named has to be a URL.
    pub open spec fn built(cfg: OdohUpstreamConfig, pad: bool, r: Result<OdohRung, OdohError>) -> bool {
        let ips = addresses(texts(cfg.bootstrap_ips@));
        let usable = url_endpoint(cfg.target@) is Some && ips.len() > 0 && (cfg.relay@.len() > 0
            ==> url_endpoint(cfg.relay@) is Some);
        match r {
            Ok(rung) => {
                &&& usable
                &&& rung.config() == cfg
                &&& rung.pads() == pad
                &&& rung.cached_key() is None
                &&& pinned(rung.pinned_hosts().target, cfg.target@, ips)
                &&& rung.pinned_hosts().relay is Some <==> cfg.relay@.len() > 0
                &&& rung.pinned_hosts().relay is Some ==> pinned(
                    rung.pinned_hosts().relay->0,
                    cfg.relay@,
                    ips,
                )
            },
            Err(e) => !usable && e@ == if url_endpoint(cfg.target@) is None {
                bad_scheme(cfg.target@)
            } else if ips.len() == 0 {
                no_addresses()
            } else {
                bad_scheme(cfg.relay@)
            },
        }
    }

    /// A rung that pads its queries where `pad` says so.
    pub fn new_with_padding(cfg: OdohUpstreamConfig, pad: bool) -> (r: Result<OdohRung, OdohError>)
        ensures
            OdohRung::built(cfg, pad, r),
    {
        match pin_hosts(&cfg) {
            Ok(hosts) => Ok(OdohRung { cfg, hosts, config_cache: None, pad }),
            Err(e) => Err(e),
        }
    }

    /// A rung that does not pad its queries.
    pub fn new(cfg: OdohUpstreamConfig) -> (r: Result<OdohRung, OdohError>)
        ensures
            OdohRung::built(cfg, false, r),
    {
        OdohRung::new_with_padding(cfg, false)
    }

    /// The hosts and addresses that the HTTP client is built with.
    pub fn hosts(&self) -> (r: &PinnedHosts)
        ensures
            *r == self.pinned_hosts(),
    {
        &self.hosts
    }

    /// Whether queries are padded.
    pub fn pad(&self) -> (r: bool)
        ensures
            r == self.pads(),
    {
        self.pad
    }

    /// Where the key of the target is fetched.
    pub fn configs_url(&self) -> (r: Result<String, OdohError>)
        ensures
            (match r {
                Ok(u) => configs_url(self.config().target@) == Some(u@),
                Err(e) => configs_url(self.config().target@) is None && e@ == bad_scheme(
                    self.config().target@,
                ),
            }),
    {
        odohconfigs_url(self.cfg.target.as_str())
    }

    /// Where a query is posted.
    pub fn post_url(&self) -> (r: Result<String, OdohError>)
        ensures
            (match r {
                Ok(u) => query_url(self.config().target@, self.config().relay@) == Some(u@),
                Err(e) => query_url(self.config().target@, self.config().relay@) is None && e@
                    == bad_scheme(self.config().target@),
            }),
    {
        if self.cfg.relay.as_str().is_empty() {
            return Ok(self.cfg.target.clone());
        }
        match parse_https_url(self.cfg.target.as_str()) {
            Err(e) => Err(e),
            Ok((host, path)) => {
                let h = percent_encode(host.as_str());
                let p = percent_encode(path.as_str());
                let mut u = self.cfg.relay.clone();
                u.append("?targethost=");
                u.append(h.as_str());
                u.append("&targetpath=");
                u.append(p.as_str());
                Ok(u)
            },
        }
    }

    /// The key to use, where one is cached that is not too old at the age that the clock gives
    /// it.
    pub fn fresh_key(&self) -> (r: Option<Vec<u8>>)
        ensures
            self.cached_key() is None ==> r is None,
            self.cached_key() is Some ==> exists|age: u128| #[trigger]
                elapsed_nanos(self.cached_at(), age) && opt_bytes(r) == if age
                    < CONFIG_CACHE_TTL_NANOS {
                    self.cached_key()
                } else {
                    None
                },
    {
        match &self.config_cache {
            Some(c) => {
                let fresh = c.is_fresh();
                proof {
                    let age = choose|age: u128| #[trigger]
                        elapsed_nanos(c.fetched_at, age) && fresh == (age < CONFIG_CACHE_TTL_NANOS);
                    assert(elapsed_nanos(self.cached_at(), age));
                }
                if fresh {
                    let k = c.contents.clone();
                    proof {
                        assert(k@ =~= c.contents@);
                    }
                    Some(k)
                } else {
                    None
                }
            },
            None => None,
        }
    }

    /// Remembers a key that was just fetched.
    pub fn remember_key(&mut self, key: Vec<u8>)
        ensures
            final(self).cached_key() == Some(key@),
            is_mono_reading(final(self).cached_at()),
            final(self).config() == old(self).config(),
            final(self).pads() == old(self).pads(),
            final(self).pinned_hosts() == old(self).pinned_hosts(),
    {
        self.config_cache = Some(
            CachedConfig { contents: key, fetched_at: std::time::Instant::now() },
        );
    }

    /// Drops the key.
    pub fn evict_key(&mut self)
        ensures
            final(self).cached_key() is None,
            final(self).config() == old(self).config(),
            final(self).pads() == old(self).pads(),
            final(self).pinned_hosts() == old(self).pinned_hosts(),
    {
        self.config_cache = None;
    }
}

// ── What the steps mean ─────────────────────────────────────────────────────

/// `url` is written as a scheme, a host and what follows it from a slash on.
pub open spec fn is_url(url: Seq<char>, scheme: Seq<char>, host: Seq<char>, tail: Seq<char>) -> bool {
    &&& url == scheme + "://"@ + host + tail
    &&& !host.contains('/')
    &&& tail.len() > 0 ==> tail[0] == '/'
}

proof fn lemma_url(url: Seq<char>, scheme: Seq<char>, host: Seq<char>, tail: Seq<char>)
    requires
        is_url(url, scheme, host, tail),
        scheme == "https"@ || scheme == "http"@,
    ensures
        scheme_split(url) == Some((scheme, host + tail)),
        first_index(host + tail, '/') == host.len(),
        host_part(host + tail) == host,
        (host + tail).skip(host.len() as int) == tail,
{
    reveal_strlit("https://");
    reveal_strlit("http://");
    reveal_strlit("https");
    reveal_strlit("http");
    reveal_strlit("://");
    let rest = host + tail;
    if scheme == "https"@ {
        assert("https"@ + "://"@ =~= "https://"@);
        assert(url =~= "https://"@ + rest);
        assert(url.take(8) =~= "https://"@);
        assert(url.skip(8) =~= rest);
    } else {
        assert("http"@ + "://"@ =~= "http://"@);
        assert(url =~= "http://"@ + rest);
        assert(url.take(7) =~= "http://"@);
        assert(url.skip(7) =~= rest);
        assert(url[4] == ':');
        if has_prefix(url, "https://"@) {
            assert(url.take(8)[4] == "https://"@[4]);
        }
    }
    assert forall|j: int| 0 <= j < host.len() implies rest[j] != '/' by {
        assert(rest[j] == host[j]);
        if host[j] == '/' {
            assert(host.contains('/'));
        }
    }
    crate::text::lemma_first_index(rest, '/', host.len() as int);
    assert(rest.take(host.len() as int) =~= host);
    assert(rest.skip(host.len() as int) =~= tail);
}

/// A URL is split behind its scheme, `https` or `http`; any other text is refused, and the error
/// shows it.
pub proof fn law_urls_are_split_behind_their_scheme(url: &str, r: Result<(String, String), OdohError>, rest: Seq<char>)
    requires
        call_ensures(split_scheme, (url,), r),
    ensures
        url@ == "https://"@ + rest ==> (r matches Ok(p) && p.0@ == "https"@ && p.1@ == rest),
        url@ == "http://"@ + rest ==> (r matches Ok(p) && p.0@ == "http"@ && p.1@ == rest),
        r matches Ok(p) ==> url@ == p.0@ + "://"@ + p.1@,
        r matches Err(e) ==> (e matches OdohError::Config(m) && m@
            == "URL must start with https:// or http://: "@ + url@),
{
    reveal_strlit("https://");
    reveal_strlit("http://");
    reveal_strlit("https");
    reveal_strlit("http");
    reveal_strlit("://");
    assert("https"@ + "://"@ =~= "https://"@);
    assert("http"@ + "://"@ =~= "http://"@);
    if url@ == "https://"@ + rest {
        assert(url@.take(8) =~= "https://"@);
        assert(url@.skip(8) =~= rest);
    }
    if url@ == "http://"@ + rest {
        assert(url@.take(7) =~= "http://"@);
        assert(url@.skip(7) =~= rest);
        assert(url@[4] == ':');
        if has_prefix(url@, "https://"@) {
            assert(url@.take(8)[4] == "https://"@[4]);
        }
    }
    if has_prefix(url@, "https://"@) {
        assert(url@ =~= "https://"@ + url@.skip(8));
    } else if has_prefix(url@, "http://"@) {
        assert(url@ =~= "http://"@ + url@.skip(7));
    }
    match r {
        Ok(p) => assert(url@ =~= p.0@ + "://"@ + p.1@),
        Err(_) => {},
    }
}

/// The parts of a URL: its key is fetched from the well-known place on its host, its path is the
/// one that is written or else the usual one, and its port is the one that is written behind the
/// host or else that of the scheme.
pub proof fn law_the_parts_of_a_url(
    url: &str,
    scheme: Seq<char>,
    host: Seq<char>,
    tail: Seq<char>,
    configs: Result<String, OdohError>,
    endpoint: Result<(String, u16), OdohError>,
    parts: Result<(String, String), OdohError>,
    bare: Seq<char>,
    port: u16,
)
    requires
        is_url(url@, scheme, host, tail),
        scheme == "https"@ || scheme == "http"@,
        call_ensures(odohconfigs_url, (url,), configs),
        call_ensures(parse_url, (url,), endpoint),
        call_ensures(parse_https_url, (url,), parts),
    ensures
        configs matches Ok(u) && u@ == scheme + "://"@ + host + "/.well-known/odohconfigs"@,
        parts matches Ok(p) && p.0@ == host && p.1@ == if tail.len() > 0 {
            tail
        } else {
            "/dns-query"@
        },
        endpoint matches Ok(p) && p.0@ == host,
        !host.contains(':') && scheme == "https"@ ==> endpoint->Ok_0.1 == 443,
        !host.contains(':') && scheme == "http"@ ==> endpoint->Ok_0.1 == 80,
        host == bare.push(':') + crate::text::decimal(port as nat) ==> endpoint->Ok_0.1 == port,
{
    lemma_url(url@, scheme, host, tail);
    reveal_strlit("https");
    reveal_strlit("http");
    assert("https"@.len() == 5 && "http"@.len() == 4);
    if !host.contains(':') {
        assert forall|j: int| -1 < j < host.len() implies host[j] != ':' by {
            if host[j] == ':' {
                assert(host.contains(':'));
            }
        }
        crate::text::lemma_last_index(host, ':', -1);
    }
    let d = crate::text::decimal(port as nat);
    if host == bare.push(':') + d {
        crate::net::lemma_decimal(port as nat);
        let k = bare.len() as int;
        assert(host[k] == ':');
        assert forall|j: int| k < j < host.len() implies host[j] != ':' by {
            assert(host[j] == d[j - k - 1]);
            assert(crate::text::is_digit(d[j - k - 1]));
        }
        crate::text::lemma_last_index(host, ':', k);
        assert(host.skip(k + 1) =~= d);
        assert(crate::text::is_digit(d[0]));
        assert(crate::text::without_plus(d) == d);
    }
}

/// A text that is no URL has none of these parts.
pub proof fn law_other_texts_have_no_parts(
    url: &str,
    split: Result<(String, String), OdohError>,
    configs: Result<String, OdohError>,
    endpoint: Result<(String, u16), OdohError>,
    parts: Result<(String, String), OdohError>,
)
    requires
        call_ensures(split_scheme, (url,), split),
        call_ensures(odohconfigs_url, (url,), configs),
        call_ensures(parse_url, (url,), endpoint),
        call_ensures(parse_https_url, (url,), parts),
    ensures
        split is Err <==> configs is Err,
        split is Err <==> endpoint is Err,
        split is Err <==> parts is Err,
{
}

/// The value of an upper-case hexadecimal digit.
pub open spec fn digit_value(c: char) -> int {
    if '0' <= c <= '9' {
        c as u32 - '0' as u32
    } else {
        c as u32 - 'A' as u32 + 10
    }
}

/// The bytes that an escaped text stands for: a percent sign and two digits for one byte, any
/// other character for itself.
pub open spec fn unescaped(s: Seq<char>) -> Seq<u8>
    decreases s.len(),
{
    if s.len() == 0 {
        Seq::<u8>::empty()
    } else if s[0] == '%' && s.len() >= 3 {
        seq![(digit_value(s[1]) * 16 + digit_value(s[2])) as u8] + unescaped(s.skip(3))
    } else {
        seq![(s[0] as u32) as u8] + unescaped(s.skip(1))
    }
}

proof fn lemma_unescaped(b: Seq<u8>, t: Seq<char>)
    ensures
        unescaped(escaped(b) + t) == b + unescaped(t),
    decreases b.len(),
{
    if b.len() == 0 {
        assert(escaped(b) + t =~= t);
        assert(b + unescaped(t) =~= unescaped(t));
    } else {
        let f = b.drop_last();
        let x = b.last();
        if is_unreserved(x) {
            let u = seq![(x as u32) as char] + t;
            assert(escaped(b) + t =~= escaped(f) + u);
            lemma_unescaped(f, u);
            assert(u.skip(1) =~= t);
            assert(u[0] == (x as u32) as char);
            assert(u[0] != '%');
            assert((u[0] as u32) as u8 == x);
            assert(unescaped(u) =~= seq![x] + unescaped(t));
        } else {
            let hi = upper_hex(x as nat / 16);
            let lo = upper_hex(x as nat % 16);
            let u = seq!['%', hi, lo] + t;
            assert(escaped(b) + t =~= escaped(f) + u);
            lemma_unescaped(f, u);
            assert(u.skip(3) =~= t);
            assert(digit_value(hi) == x as nat / 16);
            assert(digit_value(lo) == x as nat % 16);
            assert(unescaped(u) =~= seq![x] + unescaped(t));
        }
        assert(f + (seq![x] + unescaped(t)) =~= b + unescaped(t));
    }
}

proof fn lemma_escape_char(c: char)
    requires
        is_escape_char(c),
    ensures
        'a' <= c <= 'z' || 'A' <= c <= 'Z' || '0' <= c <= '9' || c == '-' || c == '_' || c == '.' || c
            == '~' || c == '/' || c == '%',
{
}

/// An escaped text stands for the bytes of the text, so that different texts are escaped
/// differently; and of its bytes, letters, digits, `-`, `_`, `.`, `~` and `/` stand for
/// themselves.
pub proof fn law_escaping_loses_nothing(s: &str, r: String)
    requires
        call_ensures(percent_encode, (s,), r),
    ensures
        unescaped(r@) == encode_utf8(s@),
        forall|i: int|
            0 <= i < r@.len() ==> ('a' <= #[trigger] r@[i] <= 'z' || 'A' <= r@[i] <= 'Z' || '0' <= r@[i]
                <= '9' || r@[i] == '-' || r@[i] == '_' || r@[i] == '.' || r@[i] == '~' || r@[i] == '/'
                || r@[i] == '%'),
{
    let b = encode_utf8(s@);
    let none = Seq::<char>::empty();
    lemma_unescaped(b, none);
    assert(escaped(b) + none =~= escaped(b));
    assert(b + unescaped(none) =~= b);
    law_escaped_text_stays_in_its_parameter(b);
    assert forall|i: int| 0 <= i < r@.len() implies ('a' <= #[trigger] r@[i] <= 'z' || 'A' <= r@[i] <= 'Z'
        || '0' <= r@[i] <= '9' || r@[i] == '-' || r@[i] == '_' || r@[i] == '.' || r@[i] == '~' || r@[i]
        == '/' || r@[i] == '%') by {
        assert(is_escape_char(escaped(b)[i]));
        lemma_escape_char(r@[i]);
    }
}

/// The hosts that a client is built with: the target, and the relay where one is named, each
/// reached at every address of the configuration, in order, at its own port.
pub proof fn law_hosts_are_reached_at_the_given_addresses(
    cfg: &OdohUpstreamConfig,
    target: &str,
    relay: &str,
    r: Result<PinnedHosts, OdohError>,
    t: Result<(String, u16), OdohError>,
    l: Result<(String, u16), OdohError>,
    ips: Vec<IpAddr>,
    i: int,
)
    requires
        call_ensures(pin_hosts, (cfg,), r),
        target@ == cfg.target@,
        call_ensures(parse_url, (target,), t),
        relay@ == cfg.relay@,
        call_ensures(parse_url, (relay,), l),
        call_ensures(parse_addresses, (&cfg.bootstrap_ips,), ips),
    ensures
        r is Ok <==> t is Ok && ips@.len() > 0 && (relay@.len() > 0 ==> l is Ok),
        r matches Ok(h) ==> h.target.host@ == t->Ok_0.0@ && h.target.addrs@.len() == ips@.len(),
        r matches Ok(h) ==> (0 <= i < ips@.len() ==> h.target.addrs@[i] == (SocketAddr {
            ip: ips@[i],
            port: t->Ok_0.1,
        })),
        r matches Ok(h) ==> (h.relay is Some <==> relay@.len() > 0),
        r matches Ok(h) ==> (h.relay matches Some(x) ==> x.host@ == l->Ok_0.0@ && x.addrs@.len()
            == ips@.len() && (0 <= i < ips@.len() ==> x.addrs@[i] == (SocketAddr {
            ip: ips@[i],
            port: l->Ok_0.1,
        }))),
{
}

/// A query is posted to the target itself, or to the relay, which is told the target's host and
/// path as parameters.
pub proof fn law_where_queries_are_posted(
    rung: &OdohRung,
    r: Result<String, OdohError>,
    target: &str,
    parts: Result<(String, String), OdohError>,
    host: &str,
    path: &str,
    h: String,
    p: String,
)
    requires
        call_ensures(OdohRung::post_url, (rung,), r),
        target@ == rung.config().target@,
        call_ensures(parse_https_url, (target,), parts),
        parts matches Ok(x) ==> host@ == x.0@ && path@ == x.1@,
        call_ensures(percent_encode, (host,), h),
        call_ensures(percent_encode, (path,), p),
    ensures
        rung.config().relay@.len() == 0 ==> (r matches Ok(u) && u@ == target@),
        rung.config().relay@.len() > 0 ==> (r is Ok <==> parts is Ok),
        rung.config().relay@.len() > 0 ==> (r matches Ok(u) ==> u@ == rung.config().relay@
            + "?targethost="@ + h@ + "&targetpath="@ + p@),
{
}

/// The first key of a list is used; without any that is an error.
pub proof fn law_the_first_key_is_used(keys: Vec<Vec<u8>>, r: Result<Vec<u8>, OdohError>)
    requires
        call_ensures(first_key, (keys,), r),
    ensures
        r is Ok <==> keys@.len() > 0,
        r matches Ok(k) ==> k@ == keys@.first()@,
        r matches Err(e) ==> e is ConfigParse,
{
}

/// A key is used for an hour.
pub proof fn law_keys_are_used_for_an_hour(age: u128, r: bool)
    requires
        call_ensures(fresh_at_age, (age,), r),
    ensures
        r <==> age < 60 * 60 * 1_000_000_000,
{
}

/// A lookup with a usable key asks at once, and fetches one otherwise; a fetched key is asked
/// under, and a fetch that failed ends the lookup; a key is fetched again only where an answer
/// under the cached one could not be opened.
pub proof fn law_how_a_lookup_goes_on(
    have: bool,
    start: LookupStep,
    step: LookupStep,
    end: QueryEnd,
    next: LookupStep,
    fetched: bool,
    then_step: LookupStep,
)
    requires
        call_ensures(lookup_start, (have,), start),
        call_ensures(after_query, (step, end), next),
        call_ensures(after_fetch, (fetched,), then_step),
    ensures
        have ==> start == LookupStep::QueryCached,
        !have ==> start == LookupStep::FetchKey,
        next == LookupStep::FetchKey <==> step == LookupStep::QueryCached && end == QueryEnd::NotOpened,
        next == LookupStep::FetchKey || next == LookupStep::Done,
        fetched ==> then_step == LookupStep::QueryFetched,
        !fetched ==> then_step == LookupStep::Done,
{
}

/// What a query came to is told by its result: only an answer that could not be opened may be due
/// to another key.
pub proof fn law_what_a_query_came_to(r: &Result<Vec<u8>, OdohError>, e: QueryEnd)
    requires
        call_ensures(query_end, (r,), e),
    ensures
        e == QueryEnd::Answered <==> *r is Ok,
        e == QueryEnd::NotOpened <==> (*r matches Err(x) && x is Decrypt),
        e == QueryEnd::Failed <==> (*r matches Err(x) && !(x is Decrypt)),
{
}

/// A status of success is accepted, and any other refused with its text; the two places are told
/// apart by the kind of the error.
pub proof fn law_refused_requests_are_errors(success: bool, status: &str, c: Result<(), OdohError>, q: Result<(), OdohError>)
    requires
        call_ensures(check_config_status, (success, status), c),
        call_ensures(check_query_status, (success, status), q),
    ensures
        c is Ok <==> success,
        q is Ok <==> success,
        c matches Err(e) ==> (e matches OdohError::ConfigFetch(m) && m@
            == "odohconfigs endpoint returned HTTP "@ + status@),
        q matches Err(e) ==> (e matches OdohError::Transport(m) && m@ == "ODoH server returned HTTP "@
            + status@),
{
}

/// What is sealed without padding is the query itself; with padding its length is a multiple of
/// 128.
pub proof fn law_what_is_sealed(raw: Vec<u8>, pad: bool, r: Result<Vec<u8>, OdohError>)
    requires
        call_ensures(query_plaintext, (raw, pad), r),
    ensures
        !pad ==> (r matches Ok(b) && b@ == raw@),
        pad ==> (r matches Ok(b) ==> b@.len() % 128 == 0),
        r matches Err(e) ==> e is Encrypt,
{
}

/// An answer is handed on as it was opened, where it is a message; one that was not opened and
/// one that is no message are errors of their own kinds.
pub proof fn law_answers_are_handed_on_as_opened(opened: Result<Vec<u8>, String>, r: Result<Vec<u8>, OdohError>)
    requires
        call_ensures(accept_answer, (opened,), r),
    ensures
        opened is Err ==> (r matches Err(e) && e is Decrypt),
        opened matches Ok(b) ==> (r is Ok <==> message_error(b@) is None),
        opened matches Ok(b) ==> (r matches Ok(m) ==> m@ == b@),
        opened is Ok ==> (r matches Err(e) ==> e is DnsParse),
{
}

/// A key is remembered until it is dropped, and neither changes anything else; a new rung has
/// none, and pads just where it is told to.
pub proof fn law_a_key_is_remembered_until_dropped(
    a: &mut OdohRung,
    b: &mut OdohRung,
    key: Vec<u8>,
    cfg: OdohUpstreamConfig,
    pad: bool,
    padded: Result<OdohRung, OdohError>,
    plain: Result<OdohRung, OdohError>,
)
    requires
        call_ensures(OdohRung::remember_key, (a, key), ()),
        call_ensures(OdohRung::evict_key, (b,), ()),
        call_ensures(OdohRung::new_with_padding, (cfg, pad), padded),
        call_ensures(OdohRung::new, (cfg,), plain),
    ensures
        final(a).cached_key() == Some(key@),
        final(b).cached_key() is None,
        final(a).config() == old(a).config() && final(a).pads() == old(a).pads(),
        final(b).config() == old(b).config() && final(b).pads() == old(b).pads(),
        padded matches Ok(x) ==> x.pads() == pad && x.cached_key() is None && x.config() == cfg,
        plain matches Ok(x) ==> !x.pads() && x.cached_key() is None && x.config() == cfg,
        padded is Ok <==> plain is Ok,
{
}

/// What a failure of an oblivious lookup is called.
pub proof fn law_odoh_errors_are_told(e: &OdohError, r: String)
    requires
        call_ensures(OdohError::message, (e,), r),
    ensures
        *e matches OdohError::Config(s) ==> r@ == "ODoH config error: "@ + s@,
        *e matches OdohError::ConfigFetch(s) ==> r@ == "ODoH config fetch failed: "@ + s@,
        *e matches OdohError::ConfigParse(s) ==> r@ == "ODoH config parse failed: "@ + s@,
        *e matches OdohError::Encrypt(s) ==> r@ == "ODoH encrypt failed: "@ + s@,
        *e matches OdohError::Decrypt(s) ==> r@ == "ODoH decrypt failed: "@ + s@,
        *e matches OdohError::Transport(s) ==> r@ == "ODoH transport error: "@ + s@,
        *e matches OdohError::DnsParse(s) ==> r@ == "ODoH DNS parse failed: "@ + s@,
{
}

/// Of the keys that a target serves the first is used, and a list that cannot be read or holds
/// none is an error.
pub proof fn law_a_target_gives_its_first_key(body: &[u8], r: Result<Vec<u8>, OdohError>)
    requires
        call_ensures(target_key, (body,), r),
    ensures
        r is Ok <==> keys_in(body@) is Ok && keys_in(body@)->Ok_0.len() > 0,
        r matches Ok(k) ==> k@ == keys_in(body@)->Ok_0[0],
        r matches Err(e) ==> e is ConfigParse,
{
}

/// A key is fresh where the clock gives it an age below an hour.
pub proof fn law_fresh_keys_are_younger_than_an_hour(c: &CachedConfig, r: bool)
    requires
        call_ensures(CachedConfig::is_fresh, (c,), r),
    ensures
        r ==> exists|age: u128| #[trigger]
            elapsed_nanos(c.fetched_at, age) && age < 60 * 60 * 1_000_000_000,
        !r ==> exists|age: u128| #[trigger]
            elapsed_nanos(c.fetched_at, age) && age >= 60 * 60 * 1_000_000_000,
{
}

/// A query carries its number in its first two bytes; one that cannot be written is an error, and
/// so is one that cannot be sealed.  An answer is opened with the secret of its query, and handed
/// on where it is a message.
pub proof fn law_queries_are_written_sealed_and_answered(
    name: &str,
    rtype: u16,
    id: u16,
    q: Result<Vec<u8>, OdohError>,
    query: &[u8],
    key: &[u8],
    seed: &Vec<u8>,
    s: Result<SealedQuery, OdohError>,
    response: &[u8],
    secret: &Vec<u8>,
    a: Result<Vec<u8>, OdohError>,
)
    requires
        seed@.len() == 32,
        secret@.len() == 16,
        call_ensures(query_with_id, (name, rtype, id), q),
        call_ensures(seal_query, (query, key, seed), s),
        call_ensures(open_answer, (query, response, secret), a),
    ensures
        q is Ok <==> query_wire(name@, rtype, id) is Ok,
        q matches Ok(b) ==> b@ == query_wire(name@, rtype, id)->Ok_0 && b@.len() >= 2 && b@[0]
            == id / 256 && b@[1] == id % 256,
        q matches Err(e) ==> e is DnsParse,
        s is Ok <==> sealed(query@, key@, seed@) is Ok,
        s matches Ok(x) ==> (x.message@, x.secret@) == sealed(query@, key@, seed@)->Ok_0,
        s matches Err(e) ==> e is Encrypt,
        a is Ok <==> opened(query@, response@, secret@) is Ok && message_error(
            opened(query@, response@, secret@)->Ok_0,
        ) is None,
        a matches Ok(m) ==> m@ == opened(query@, response@, secret@)->Ok_0,
        opened(query@, response@, secret@) is Err ==> (a matches Err(e) && e is Decrypt),
{
}

/// The keys are fetched for the configured target, and a rung shows its hosts and whether it pads.
pub proof fn law_where_keys_are_fetched(
    rung: &OdohRung,
    r: Result<String, OdohError>,
    target: &str,
    direct: Result<String, OdohError>,
    hosts: &PinnedHosts,
    pad: bool,
)
    requires
        call_ensures(OdohRung::configs_url, (rung,), r),
        target@ == rung.config().target@,
        call_ensures(odohconfigs_url, (target,), direct),
        call_ensures(OdohRung::hosts, (rung,), hosts),
        call_ensures(OdohRung::pad, (rung,), pad),
    ensures
        r is Ok <==> direct is Ok,
        r is Ok ==> r->Ok_0@ == direct->Ok_0@,
        *hosts == rung.pinned_hosts(),
        pad == rung.pads(),
{
}

}
