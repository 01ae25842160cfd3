//! The DNS takeover transaction.
//!
//! ```text
//! PREPARE    the loopback interface can be bound
//! SELF-TEST  the blocked canary is sinkholed, the allowed one resolves
//! SNAPSHOT   the current configuration is read
//! PERSIST    a baseline to restore is on disk before anything is changed
//! COMMIT     every service is pointed at the sinkhole
//! VERIFY     the allowed canary resolves through the system's own path
//! ROLLBACK   where COMMIT or VERIFY fails, the baseline is restored
//! ```
//!
//! The transaction is a state machine: a state says what has to be done next, and
//! [`TakeoverState::advance`] takes what came of it.
use vstd::prelude::*;
use vstd::string::*;
use vstd::utf8::encode_utf8;
use crate::net::{IpAddr, SocketAddr};
use crate::net::LOCALHOST_V4_BITS;
use crate::platform::{DnsSnapshot, PlatformError};
use crate::text::{decimal_of, split_on};
use crate::text::{decimal, pieces, texts};

verus! {

/// A name that the daemon always blocks.
pub const SELFTEST_BLOCKED_DOMAIN: &'static str = "hushwarren-selftest-blocked.invalid";

/// Errors of the takeover transaction.
#[derive(Debug)]
pub enum TakeoverError {
    /// The loopback interface could not be bound.
    PortConflict(String),
    /// The blocked canary was not sinkholed, or the allowed one did not resolve.
    SelfTestFailed(String),
    /// A platform operation failed.
    Platform(PlatformError),
    /// The baseline could not be written.
    SnapshotPersist(String),
    /// The system does not resolve through the daemon; the baseline was restored.
    VerifyFailed(String),
    /// A query through the listener gave an unexpected response.
    DnsError(String),
}

/// The message shown for an error.
pub open spec fn takeover_error_text(e: TakeoverError) -> Seq<char> {
    match e {
        TakeoverError::PortConflict(s) =>
            "port 53 is already in use; cannot start takeover: "@ + s@,
        TakeoverError::SelfTestFailed(s) => "self-test failed: "@ + s@,
        TakeoverError::Platform(p) => "platform error: "@ + p@.text(),
        TakeoverError::SnapshotPersist(s) => "snapshot persist failed: "@ + s@,
        TakeoverError::VerifyFailed(s) => "post-commit verify failed (DNS restored): "@ + s@,
        TakeoverError::DnsError(s) => "self-test DNS error: "@ + s@,
    }
}

impl TakeoverError {
    /// The message shown for the error.
    pub fn message(&self) -> (r: String)
        ensures
            r@ == takeover_error_text(*self),
    {
        match self {
            TakeoverError::PortConflict(s) =>
                "port 53 is already in use; cannot start takeover: ".to_owned().concat(s.as_str()),
            TakeoverError::SelfTestFailed(s) => "self-test failed: ".to_owned().concat(s.as_str()),
            TakeoverError::Platform(p) => {
                let m = p.message();
                "platform error: ".to_owned().concat(m.as_str())
            },
            TakeoverError::SnapshotPersist(s) => "snapshot persist failed: ".to_owned().concat(
                s.as_str(),
            ),
            TakeoverError::VerifyFailed(s) =>
                "post-commit verify failed (DNS restored): ".to_owned().concat(s.as_str()),
            TakeoverError::DnsError(s) => "self-test DNS error: ".to_owned().concat(s.as_str()),
        }
    }
}

/// Configuration of a takeover.
#[derive(Debug)]
pub struct TakeoverConfig {
    /// The daemon's own listener.
    pub listener_addr: SocketAddr,
    /// The name that must be sinkholed.
    pub blocked_canary: String,
    /// The name that must resolve.
    pub allowed_canary: String,
    /// How long each probe may take, in milliseconds.
    pub probe_timeout_ms: u64,
    /// Where the baseline is kept.
    pub state_dir: String,
}

impl Default for TakeoverConfig {
    fn default() -> (r: TakeoverConfig)
        ensures
            r.listener_addr == (SocketAddr { ip: IpAddr::V4(LOCALHOST_V4_BITS), port: 53 }),
            r.blocked_canary@ == SELFTEST_BLOCKED_DOMAIN@,
            r.allowed_canary@ == "example.com"@,
            r.probe_timeout_ms == 5000,
            r.state_dir@ == "/var/lib/hushwarren"@,
    {
        TakeoverConfig {
            listener_addr: SocketAddr { ip: IpAddr::V4(LOCALHOST_V4_BITS), port: 53 },
            blocked_canary: SELFTEST_BLOCKED_DOMAIN.to_owned(),
            allowed_canary: "example.com".to_owned(),
            probe_timeout_ms: 5000,
            state_dir: "/var/lib/hushwarren".to_owned(),
        }
    }
}

// ── Probes ──────────────────────────────────────────────────────────────────

/// An answer that shows the name sinkholed: no address, or unspecified ones only.
pub open spec fn sinkholed(ips: Seq<IpAddr>) -> bool {
    forall|i: int| 0 <= i < ips.len() ==> (#[trigger] ips[i]).unspecified()
}

/// An answer that shows the upstream path working: it holds an address that is neither
/// loopback nor unspecified.
pub open spec fn has_real_address(ips: Seq<IpAddr>) -> bool {
    exists|i: int|
        0 <= i < ips.len() && !(#[trigger] ips[i]).loopback() && !ips[i].unspecified()
}

/// Whether an answer shows the name sinkholed.
pub fn probe_blocked(ips: &Vec<IpAddr>) -> (r: bool)
    ensures
        r == sinkholed(ips@),
{
    let mut i: usize = 0;
    while i < ips.len()
        invariant
            0 <= i <= ips.len(),
            forall|j: int| 0 <= j < i ==> (#[trigger] ips@[j]).unspecified(),
        decreases ips.len() - i,
    {
        if !ips[i].is_unspecified() {
            return false;
        }
        i += 1;
    }
    true
}

/// Whether an answer shows the upstream path working.
pub fn probe_allowed(ips: &Vec<IpAddr>) -> (r: bool)
    ensures
        r == has_real_address(ips@),
{
    let mut i: usize = 0;
    while i < ips.len()
        invariant
            0 <= i <= ips.len(),
            forall|j: int|
                0 <= j < i ==> (#[trigger] ips@[j]).loopback() || ips@[j].unspecified(),
        decreases ips.len() - i,
    {
        if !ips[i].is_loopback() && !ips[i].is_unspecified() {
            proof {
                assert(!ips@[i as int].loopback());
            }
            return true;
        }
        i += 1;
    }
    false
}

/// Bytes of one label: its length, cut to a byte, and its text.
pub open spec fn label_bytes(label: Seq<char>) -> Seq<u8> {
    seq![encode_utf8(label).len() as u8] + encode_utf8(label)
}

/// Bytes of the labels, empty ones left out.
pub open spec fn labels_bytes(labels: Seq<Seq<char>>) -> Seq<u8>
    decreases labels.len(),
{
    if labels.len() == 0 {
        Seq::<u8>::empty()
    } else if labels.last().len() == 0 {
        labels_bytes(labels.drop_last())
    } else {
        labels_bytes(labels.drop_last()) + label_bytes(labels.last())
    }
}

/// The header of a query: one question, recursion desired.
pub open spec fn query_header() -> Seq<u8> {
    seq![0xABu8, 0x01u8, 0x01u8, 0x00u8, 0x00u8, 0x01u8, 0u8, 0u8, 0u8, 0u8, 0u8, 0u8]
}

/// A query for `domain` with this type, class IN.
pub open spec fn query_bytes(domain: Seq<char>, qtype: u16) -> Seq<u8> {
    query_header() + labels_bytes(pieces(domain, '.')) + seq![
        0u8,
        (qtype / 256) as u8,
        (qtype % 256) as u8,
        0u8,
        1u8,
    ]
}

/// Appends bytes.
fn push_all(v: &mut Vec<u8>, b: &[u8])
    ensures
        final(v)@ == old(v)@ + b@,
{
    let mut i: usize = 0;
    let ghost start = v@;
    while i < b.len()
        invariant
            0 <= i <= b.len(),
            v@ == start + b@.take(i as int),
        decreases b.len() - i,
    {
        v.push(b[i]);
        proof {
            assert(b@.take(i + 1) =~= b@.take(i as int).push(b@[i as int]));
        }
        i += 1;
    }
    proof {
        assert(b@.take(i as int) =~= b@);
    }
}

/// A query packet for `domain`.
pub fn build_dns_query(domain: &str, qtype: u16) -> (r: Vec<u8>)
    ensures
        r@ == query_bytes(domain@, qtype),
{
    let mut pkt: Vec<u8> = vec![0xAB, 0x01, 0x01, 0x00, 0x00, 0x01, 0, 0, 0, 0, 0, 0];
    proof {
        assert(pkt@ =~= query_header());
    }
    let labels = split_on(domain, '.');
    let ghost all = pieces(domain@, '.');
    let mut i: usize = 0;
    proof {
        assert(pkt@ =~= query_header() + labels_bytes(all.take(0)));
    }
    while i < labels.len()
        invariant
            0 <= i <= labels.len(),
            all == texts(labels@),
            pkt@ == query_header() + labels_bytes(all.take(i as int)),
        decreases labels.len() - i,
    {
        proof {
            assert(all.take(i + 1).drop_last() =~= all.take(i as int));
            assert(all.take(i + 1).last() == labels@[i as int]@);
        }
        let label = labels[i].as_str();
        if !label.is_empty() {
            let b = label.as_bytes();
            let n: usize = b.len();
            let ghost before = pkt@;
            pkt.push(
                #[verifier::truncate]
                (n as u8),
            );
            push_all(&mut pkt, b);
            proof {
                assert(pkt@ =~= before + label_bytes(label@));
                assert(pkt@ =~= query_header() + labels_bytes(all.take(i + 1)));
            }
        }
        i += 1;
    }
    proof {
        assert(all.take(i as int) =~= all);
    }
    pkt.push(0);
    pkt.push((qtype / 256) as u8);
    pkt.push((qtype % 256) as u8);
    pkt.push(0);
    pkt.push(1);
    proof {
        assert(pkt@ =~= query_bytes(domain@, qtype));
    }
    pkt
}

/// The position behind the name that starts at `pos`: labels up to the root label, or up to
/// a pointer.  A name that runs out of the packet gives the position at which it does.
pub open spec fn name_end(pkt: Seq<u8>, pos: int) -> Result<int, int>
    decreases pkt.len() + 256 - pos,
{
    if pos < 0 || pos >= pkt.len() {
        Err(pos)
    } else if pkt[pos] == 0 {
        Ok(pos + 1)
    } else if pkt[pos] >= 0xC0 {
        Ok(pos + 2)
    } else {
        name_end(pkt, pos + 1 + pkt[pos])
    }
}

/// The message for a name that runs out of the packet.
pub open spec fn overrun_text(pos: int) -> Seq<char> {
    "name parse overrun at pos "@ + decimal(pos as nat)
}

/// Packets whose positions can be counted with room to spare.
pub open spec fn countable(pkt: Seq<u8>) -> bool {
    pkt.len() + 0x2_0000 <= usize::MAX
}

/// The position behind the name that starts at `pos`.
pub fn skip_name(pkt: &[u8], pos: usize) -> (r: Result<usize, String>)
    requires
        countable(pkt@),
    ensures
        (match r {
            Ok(p) => name_end(pkt@, pos as int) == Ok::<int, int>(p as int) && p <= pkt@.len() + 1,
            Err(e) => name_end(pkt@, pos as int) is Err && e@ == overrun_text(
                name_end(pkt@, pos as int)->Err_0,
            ),
        }),
{
    let mut p: usize = pos;
    loop
        invariant
            countable(pkt@),
            name_end(pkt@, pos as int) == name_end(pkt@, p as int),
        decreases pkt@.len() + 256 - p,
    {
        if p >= pkt.len() {
            let at = decimal_of(p as u64);
            return Err("name parse overrun at pos ".to_owned().concat(at.as_str()));
        }
        let len: u8 = pkt[p];
        proof {
            assert((len & 0xC0 == 0xC0) == (len >= 0xC0)) by (bit_vector);
        }
        if len == 0 {
            return Ok(p + 1);
        } else if len & 0xC0 == 0xC0 {
            return Ok(p + 2);
        } else {
            p = p + 1 + len as usize;
        }
    }
}

/// The number in two bytes, the high one first.
pub open spec fn be16(pkt: Seq<u8>, pos: int) -> int {
    pkt[pos] * 256 + pkt[pos + 1]
}

/// The number that bytes spell, the most significant first.
pub open spec fn be_number(b: Seq<u8>) -> nat
    decreases b.len(),
{
    if b.len() == 0 {
        0
    } else {
        be_number(b.drop_last()) * 256 + b.last() as nat
    }
}

/// The address that a record holds: four bytes of type A, or sixteen of type AAAA.
pub open spec fn record_address(rtype: int, data: Seq<u8>) -> Seq<IpAddr> {
    if rtype == 1 && data.len() == 4 {
        seq![IpAddr::V4(be_number(data) as u32)]
    } else if rtype == 28 && data.len() == 16 {
        seq![IpAddr::V6(be_number(data) as u128)]
    } else {
        Seq::<IpAddr>::empty()
    }
}

/// The addresses in up to `n` records from `pos` on.  A record cut short, or a name that runs
/// out of the packet, ends the list.
pub open spec fn answers_from(pkt: Seq<u8>, pos: int, n: nat) -> Seq<IpAddr>
    decreases n,
{
    if n == 0 || pos >= pkt.len() {
        Seq::<IpAddr>::empty()
    } else {
        match name_end(pkt, pos) {
            Err(_) => Seq::<IpAddr>::empty(),
            Ok(p) => {
                if p + 10 > pkt.len() || p + 10 + be16(pkt, p + 8) > pkt.len() {
                    Seq::<IpAddr>::empty()
                } else {
                    let end = p + 10 + be16(pkt, p + 8);
                    record_address(be16(pkt, p), pkt.subrange(p + 10, end)) + answers_from(
                        pkt,
                        end,
                        (n - 1) as nat,
                    )
                }
            },
        }
    }
}

/// The addresses in a response.  A packet without a whole header, with an error code, without
/// a whole question or without answers holds none.
pub open spec fn response_addresses(pkt: Seq<u8>) -> Seq<IpAddr> {
    if pkt.len() < 12 || pkt[3] % 16 != 0 || be16(pkt, 6) == 0 {
        Seq::<IpAddr>::empty()
    } else {
        match name_end(pkt, 12) {
            Err(_) => Seq::<IpAddr>::empty(),
            Ok(p) => if p + 4 > pkt.len() {
                Seq::<IpAddr>::empty()
            } else {
                answers_from(pkt, p + 4, be16(pkt, 6) as nat)
            },
        }
    }
}

/// The number in two bytes.
fn read_be16(pkt: &[u8], pos: usize) -> (r: u16)
    requires
        pos + 1 < pkt@.len(),
    ensures
        r == be16(pkt@, pos as int),
{
    pkt[pos] as u16 * 256 + pkt[pos + 1] as u16
}

proof fn lemma_be_number_bound(b: Seq<u8>)
    ensures
        b.len() <= 4 ==> be_number(b) <= u32::MAX,
        b.len() <= 16 ==> be_number(b) <= u128::MAX,
        be_number(b) < vstd::arithmetic::power::pow(256, b.len()),
    decreases b.len(),
{
    reveal(vstd::arithmetic::power::pow);
    if b.len() > 0 {
        lemma_be_number_bound(b.drop_last());
    }
    let l = vstd::arithmetic::power::pow(256, b.len());
    if b.len() <= 4 {
        vstd::arithmetic::power::lemma_pow_increases(256, b.len(), 4);
        assert(vstd::arithmetic::power::pow(256, 4) == 0x1_0000_0000) by {
            reveal_with_fuel(vstd::arithmetic::power::pow, 5);
        }
    }
    if b.len() <= 16 {
        vstd::arithmetic::power::lemma_pow_increases(256, b.len(), 16);
        assert(vstd::arithmetic::power::pow(256, 16) == 0x1_0000_0000_0000_0000_0000_0000_0000_0000) by {
            reveal_with_fuel(vstd::arithmetic::power::pow, 17);
        }
    }
}

/// The number that `pkt[from..from + n]` spells.
fn read_number(pkt: &[u8], from: usize, n: usize) -> (r: u128)
    requires
        n <= 16,
        from + n <= pkt.len(),
    ensures
        r == be_number(pkt@.subrange(from as int, from + n)),
{
    let mut x: u128 = 0;
    let mut i: usize = 0;
    while i < n
        invariant
            0 <= i <= n <= 16,
            from + n <= pkt.len(),
            x == be_number(pkt@.subrange(from as int, from + i)),
        decreases n - i,
    {
        proof {
            let t = pkt@.subrange(from as int, from + i + 1);
            assert(t.drop_last() =~= pkt@.subrange(from as int, from + i));
            assert(t.last() == pkt@[from + i]);
            lemma_be_number_bound(t);
        }
        x = x * 256 + pkt[from + i] as u128;
        i += 1;
    }
    x
}

/// The addresses in a response packet, as far as it can be read: what cannot is passed over.
pub fn parse_dns_a_response(pkt: &[u8]) -> (r: Result<Vec<IpAddr>, String>)
    requires
        countable(pkt@),
    ensures
        r matches Ok(ips) && ips@ == response_addresses(pkt@),
{
    let mut addrs: Vec<IpAddr> = Vec::new();
    if pkt.len() < 12 {
        return Ok(addrs);
    }
    let flags: u8 = pkt[3];
    proof {
        assert((flags & 0x0F) == flags % 16) by (bit_vector);
    }
    if flags & 0x0F != 0 {
        return Ok(addrs);
    }
    let ancount: u16 = read_be16(pkt, 6);
    if ancount == 0 {
        return Ok(addrs);
    }
    let mut pos: usize = match skip_name(pkt, 12) {
        Ok(p) => p,
        Err(_) => return Ok(addrs),
    };
    pos = pos + 4;
    if pos > pkt.len() {
        return Ok(addrs);
    }
    let ghost start = pos as int;
    let mut left: u16 = ancount;
    proof {
        let all = answers_from(pkt@, start, ancount as nat);
        assert(addrs@ + all =~= all);
    }
    while left > 0 && pos < pkt.len()
        invariant_except_break
            countable(pkt@),
            pos <= pkt@.len(),
            response_addresses(pkt@) == answers_from(pkt@, start, ancount as nat),
            answers_from(pkt@, start, ancount as nat) == addrs@ + answers_from(
                pkt@,
                pos as int,
                left as nat,
            ),
        ensures
            response_addresses(pkt@) == addrs@,
        decreases left,
    {
        let p: usize = match skip_name(pkt, pos) {
            Ok(p) => p,
            Err(_) => {
                proof {
                    assert(addrs@ + Seq::<IpAddr>::empty() =~= addrs@);
                }
                break ;
            },
        };
        if p + 10 > pkt.len() {
            proof {
                assert(addrs@ + Seq::<IpAddr>::empty() =~= addrs@);
            }
            break ;
        }
        let rtype: u16 = read_be16(pkt, p);
        let rdlength: usize = read_be16(pkt, p + 8) as usize;
        let data: usize = p + 10;
        if data + rdlength > pkt.len() {
            proof {
                assert(addrs@ + Seq::<IpAddr>::empty() =~= addrs@);
            }
            break ;
        }
        let ghost before = addrs@;
        if rtype == 1 && rdlength == 4 {
            proof {
                lemma_be_number_bound(pkt@.subrange(data as int, data + 4));
            }
            addrs.push(IpAddr::V4(read_number(pkt, data, 4) as u32));
        } else if rtype == 28 && rdlength == 16 {
            addrs.push(IpAddr::V6(read_number(pkt, data, 16)));
        }
        proof {
            let a = record_address(be16(pkt@, p as int), pkt@.subrange(data as int, data + rdlength));
            assert(addrs@ =~= before + a);
            let rest = answers_from(pkt@, data + rdlength, (left - 1) as nat);
            assert(before + (a + rest) =~= addrs@ + rest);
        }
        pos = data + rdlength;
        left = left - 1;
        proof {
            assert(addrs@ + Seq::<IpAddr>::empty() =~= addrs@);
        }
    }
    Ok(addrs)
}

proof fn lemma_labels_end(pkt: Seq<u8>, pos: int, labels: Seq<Seq<char>>, i: int)
    requires
        0 <= i <= labels.len(),
        0 <= pos,
        pos + labels_bytes(labels).len() < pkt.len(),
        pkt.subrange(pos, pos + labels_bytes(labels).len()) == labels_bytes(labels),
        pkt[pos + labels_bytes(labels).len()] == 0,
        forall|j: int| 0 <= j < labels.len() ==> encode_utf8(#[trigger] labels[j]).len() < 0xC0,
        forall|j: int|
            0 <= j < labels.len() && (#[trigger] labels[j]).len() > 0 ==> encode_utf8(labels[j]).len() > 0,
    ensures
        labels_bytes(labels.take(i)).len() <= labels_bytes(labels).len(),
        labels_bytes(labels).take(labels_bytes(labels.take(i)).len() as int) == labels_bytes(
            labels.take(i),
        ),
        name_end(pkt, pos + labels_bytes(labels.take(i)).len()) == Ok::<int, int>(
            pos + labels_bytes(labels).len() + 1,
        ),
    decreases labels.len() - i,
{
    let all = labels_bytes(labels);
    if i == labels.len() {
        assert(labels.take(i) =~= labels);
        assert(all.take(all.len() as int) =~= all);
    } else {
        lemma_labels_end(pkt, pos, labels, i + 1);
        let b = labels_bytes(labels.take(i));
        let c = labels_bytes(labels.take(i + 1));
        let l = labels[i];
        assert(labels.take(i + 1).drop_last() =~= labels.take(i));
        assert(labels.take(i + 1).last() == l);
        if l.len() > 0 {
            assert(c == b + label_bytes(l));
            let n = encode_utf8(l).len();
            assert(all.take(c.len() as int) == c);
            assert(all.take(b.len() as int) =~= c.take(b.len() as int));
            assert(c.take(b.len() as int) =~= b);
            assert(all[b.len() as int] == c[b.len() as int]);
            assert(pkt[pos + b.len()] == pkt.subrange(pos, pos + all.len())[b.len() as int]);
            assert(pkt[pos + b.len()] == n as u8);
            assert(c.len() == b.len() + 1 + n);
        }
    }
}

proof fn lemma_encode_nonempty(s: Seq<char>)
    requires
        s.len() > 0,
    ensures
        encode_utf8(s).len() > 0,
{
    vstd::utf8::encode_utf8_decode_utf8(s);
    if encode_utf8(s).len() == 0 {
        assert(encode_utf8(s) =~= Seq::<u8>::empty());
        reveal_with_fuel(vstd::utf8::decode_utf8, 1);
        assert(vstd::utf8::decode_utf8(encode_utf8(s)).len() == 0);
        assert(false);
    }
}

/// The name in a query is skipped as a whole: behind it stand type and class, and nothing
/// else.  A label may take up to 191 bytes; a longer one reads as a pointer.
pub proof fn law_query_name_is_skipped(domain: Seq<char>, qtype: u16)
    requires
        forall|j: int|
            0 <= j < pieces(domain, '.').len() ==> encode_utf8(#[trigger] pieces(domain, '.')[j]).len()
                < 0xC0,
    ensures
        name_end(query_bytes(domain, qtype), 12) == Ok::<int, int>(
            query_bytes(domain, qtype).len() - 4,
        ),
{
    let labels = pieces(domain, '.');
    let pkt = query_bytes(domain, qtype);
    let all = labels_bytes(labels);
    assert forall|j: int| 0 <= j < labels.len() && (#[trigger] labels[j]).len() > 0 implies encode_utf8(
        labels[j],
    ).len() > 0 by {
        lemma_encode_nonempty(labels[j]);
    }
    assert(pkt.subrange(12, 12 + all.len() as int) =~= all);
    lemma_labels_end(pkt, 12, labels, 0);
    assert(labels_bytes(labels.take(0)).len() == 0);
}

// ── The transaction ─────────────────────────────────────────────────────────

/// The baseline to restore, and whether it still has to be written.
///
/// One that is on disk already is kept: a second takeover is a re-arm, and what stands in
/// the machine's configuration by then is not what it was before the first.
pub fn resolve_restore_baseline(existing: Option<DnsSnapshot>, current: &DnsSnapshot) -> (r: (
    DnsSnapshot,
    bool,
))
    ensures
        (match existing {
            Some(e) => r == (e, false),
            None => r.0@ == current@ && r.1,
        }),
{
    match existing {
        Some(e) => (e, false),
        None => (current.copy(), true),
    }
}

/// What has to be done next.
#[derive(Debug)]
pub enum TakeoverState {
    /// Bind the loopback interface.
    Prepare,
    /// Resolve the blocked canary through the daemon's listener.
    ProbeBlocked,
    /// Resolve the allowed canary through the daemon's listener.
    ProbeAllowed,
    /// Read the current configuration.
    Snapshot,
    /// Look for a baseline on disk.
    LoadBaseline { current: DnsSnapshot },
    /// Write the baseline.
    PersistBaseline { current: DnsSnapshot, baseline: DnsSnapshot },
    /// Point the services of `current` at the sinkhole.
    Commit { current: DnsSnapshot, baseline: DnsSnapshot },
    /// Resolve the allowed canary through the system's own path.
    Verify { baseline: DnsSnapshot },
    /// Restore the baseline, then fail with the error.
    RollBack { baseline: DnsSnapshot, error: TakeoverError },
    /// Clear a trip of the crash-loop breaker.
    ClearTrip { baseline: DnsSnapshot },
    /// The takeover succeeded.
    Done { baseline: DnsSnapshot },
    /// The takeover failed.
    Failed { error: TakeoverError },
}

/// What came of it.
#[derive(Debug)]
pub enum TakeoverEvent {
    /// The loopback interface was bound, or the error's text.
    Prepared(Result<(), String>),
    /// The addresses a canary resolved to, or the error's text.
    Probed(Result<Vec<IpAddr>, String>),
    /// The current configuration, or the error.
    SnapshotRead(Result<DnsSnapshot, PlatformError>),
    /// The baseline on disk, where there is a valid one.
    BaselineLoaded(Option<DnsSnapshot>),
    /// The baseline was written, or the error's text.
    BaselinePersisted(Result<(), String>),
    /// The services were pointed at the sinkhole, or the error.
    Committed(Result<(), PlatformError>),
    /// The system resolves through the daemon, or why not.
    Verified(Result<(), String>),
    /// The restore was tried; its outcome changes nothing.
    RolledBack,
    /// The trip was cleared, or it could not be; that changes nothing.
    TripCleared,
}

/// What the self-test reports of a canary.
pub open spec fn self_test_failure(e: TakeoverError, text: Seq<char>) -> bool {
    e matches TakeoverError::SelfTestFailed(s) && s@ == text
}

/// The transaction goes from `before` to `after` when `event` comes in.
pub open spec fn takeover_step(
    blocked_canary: Seq<char>,
    allowed_canary: Seq<char>,
    before: TakeoverState,
    event: TakeoverEvent,
    after: TakeoverState,
) -> bool {
    match (before, event) {
        (TakeoverState::Prepare, TakeoverEvent::Prepared(r)) => match r {
            Ok(_) => after is ProbeBlocked,
            Err(e) => after matches TakeoverState::Failed { error } && error
                matches TakeoverError::PortConflict(s) && s@ == "cannot bind loopback UDP: "@ + e@,
        },
        (TakeoverState::ProbeBlocked, TakeoverEvent::Probed(r)) => match r {
            Ok(ips) => if sinkholed(ips@) {
                after is ProbeAllowed
            } else {
                after matches TakeoverState::Failed { error } && self_test_failure(
                    error,
                    "blocked canary '"@ + blocked_canary
                        + "' was NOT sinkholes (returned a real address)"@,
                )
            },
            Err(e) => after matches TakeoverState::Failed { error } && self_test_failure(
                error,
                "blocked canary probe error: "@ + e@,
            ),
        },
        (TakeoverState::ProbeAllowed, TakeoverEvent::Probed(r)) => match r {
            Ok(ips) => if has_real_address(ips@) {
                after is Snapshot
            } else {
                after matches TakeoverState::Failed { error } && self_test_failure(
                    error,
                    "allowed canary '"@ + allowed_canary
                        + "' returned no A records (upstream path broken)"@,
                )
            },
            Err(e) => after matches TakeoverState::Failed { error } && self_test_failure(
                error,
                "allowed canary probe error: "@ + e@,
            ),
        },
        (TakeoverState::Snapshot, TakeoverEvent::SnapshotRead(r)) => match r {
            Ok(current) => after == (TakeoverState::LoadBaseline { current }),
            Err(e) => after == (TakeoverState::Failed { error: TakeoverError::Platform(e) }),
        },
        (TakeoverState::LoadBaseline { current }, TakeoverEvent::BaselineLoaded(existing)) => match existing {
            Some(baseline) => after == (TakeoverState::Commit { current, baseline }),
            None => after matches TakeoverState::PersistBaseline { current: c, baseline: b } && c
                == current && b@ == current@,
        },
        (
            TakeoverState::PersistBaseline { current, baseline },
            TakeoverEvent::BaselinePersisted(r),
        ) => match r {
            Ok(_) => after == (TakeoverState::Commit { current, baseline }),
            Err(e) => after == (TakeoverState::Failed { error: TakeoverError::SnapshotPersist(e) }),
        },
        (TakeoverState::Commit { current, baseline }, TakeoverEvent::Committed(r)) => match r {
            Ok(_) => after == (TakeoverState::Verify { baseline }),
            Err(e) => after == (TakeoverState::RollBack {
                baseline,
                error: TakeoverError::Platform(e),
            }),
        },
        (TakeoverState::Verify { baseline }, TakeoverEvent::Verified(r)) => match r {
            Ok(_) => after == (TakeoverState::ClearTrip { baseline }),
            Err(e) => after == (TakeoverState::RollBack {
                baseline,
                error: TakeoverError::VerifyFailed(e),
            }),
        },
        (TakeoverState::RollBack { baseline, error }, TakeoverEvent::RolledBack) => after == (
        TakeoverState::Failed { error }),
        (TakeoverState::ClearTrip { baseline }, TakeoverEvent::TripCleared) => after == (
        TakeoverState::Done { baseline }),
        _ => after == before,
    }
}

impl TakeoverState {
    /// The state that follows when `event` comes in.  An event that does not belong to the
    /// state changes nothing.
    pub fn advance(self, cfg: &TakeoverConfig, event: TakeoverEvent) -> (r: TakeoverState)
        ensures
            takeover_step(cfg.blocked_canary@, cfg.allowed_canary@, self, event, r),
    {
        match (self, event) {
            (TakeoverState::Prepare, TakeoverEvent::Prepared(r)) => match r {
                Ok(_) => TakeoverState::ProbeBlocked,
                Err(e) => TakeoverState::Failed {
                    error: TakeoverError::PortConflict(
                        "cannot bind loopback UDP: ".to_owned().concat(e.as_str()),
                    ),
                },
            },
            (TakeoverState::ProbeBlocked, TakeoverEvent::Probed(r)) => match r {
                Ok(ips) => if probe_blocked(&ips) {
                    TakeoverState::ProbeAllowed
                } else {
                    let mut m = "blocked canary '".to_owned();
                    m.append(cfg.blocked_canary.as_str());
                    m.append("' was NOT sinkholes (returned a real address)");
                    TakeoverState::Failed { error: TakeoverError::SelfTestFailed(m) }
                },
                Err(e) => TakeoverState::Failed {
                    error: TakeoverError::SelfTestFailed(
                        "blocked canary probe error: ".to_owned().concat(e.as_str()),
                    ),
                },
            },
            (TakeoverState::ProbeAllowed, TakeoverEvent::Probed(r)) => match r {
                Ok(ips) => if probe_allowed(&ips) {
                    TakeoverState::Snapshot
                } else {
                    let mut m = "allowed canary '".to_owned();
                    m.append(cfg.allowed_canary.as_str());
                    m.append("' returned no A records (upstream path broken)");
                    TakeoverState::Failed { error: TakeoverError::SelfTestFailed(m) }
                },
                Err(e) => TakeoverState::Failed {
                    error: TakeoverError::SelfTestFailed(
                        "allowed canary probe error: ".to_owned().concat(e.as_str()),
                    ),
                },
            },
            (TakeoverState::Snapshot, TakeoverEvent::SnapshotRead(r)) => match r {
                Ok(current) => TakeoverState::LoadBaseline { current },
                Err(e) => TakeoverState::Failed { error: TakeoverError::Platform(e) },
            },
            (TakeoverState::LoadBaseline { current }, TakeoverEvent::BaselineLoaded(existing)) => {
                let (baseline, write) = resolve_restore_baseline(existing, &current);
                if write {
                    TakeoverState::PersistBaseline { current, baseline }
                } else {
                    TakeoverState::Commit { current, baseline }
                }
            },
            (
                TakeoverState::PersistBaseline { current, baseline },
                TakeoverEvent::BaselinePersisted(r),
            ) => match r {
                Ok(_) => TakeoverState::Commit { current, baseline },
                Err(e) => TakeoverState::Failed { error: TakeoverError::SnapshotPersist(e) },
            },
            (TakeoverState::Commit { current, baseline }, TakeoverEvent::Committed(r)) => match r {
                Ok(_) => TakeoverState::Verify { baseline },
                Err(e) => TakeoverState::RollBack { baseline, error: TakeoverError::Platform(e) },
            },
            (TakeoverState::Verify { baseline }, TakeoverEvent::Verified(r)) => match r {
                Ok(_) => TakeoverState::ClearTrip { baseline },
                Err(e) => TakeoverState::RollBack {
                    baseline,
                    error: TakeoverError::VerifyFailed(e),
                },
            },
            (TakeoverState::RollBack { baseline, error }, TakeoverEvent::RolledBack) =>
                TakeoverState::Failed { error },
            (TakeoverState::ClearTrip { baseline }, TakeoverEvent::TripCleared) =>
                TakeoverState::Done { baseline },
            (s, _) => s,
        }
    }
}

/// What came of resolving a name through the system's own path.
#[derive(Debug)]
pub enum SystemLookup {
    /// An address was found.
    Found,
    /// The lookup succeeded and found no address.
    NoAddress,
    /// The lookup failed; the error's text.
    Error(String),
    /// The thread that ran the lookup ended early; the error's text.
    Aborted(String),
    /// The lookup took longer than the time allowed, shown as text.
    TimedOut(String),
}

/// Whether a lookup shows that the system resolves through the daemon, or why not.
pub fn verify_via_system_path(canary: &str, lookup: SystemLookup) -> (r: Result<(), String>)
    ensures
        (match lookup {
            SystemLookup::Found => r is Ok,
            SystemLookup::NoAddress => r matches Err(m) && m@ == "'"@ + canary@
                + "' resolved to no addresses via system path"@,
            SystemLookup::Error(e) => r matches Err(m) && m@ == "'"@ + canary@
                + "' system-path resolution failed: "@ + e@,
            SystemLookup::Aborted(e) => r matches Err(m) && m@ == "spawn_blocking panic: "@ + e@,
            SystemLookup::TimedOut(t) => r matches Err(m) && m@ == "system-path resolution of '"@
                + canary@ + "' timed out after "@ + t@,
        }),
{
    match lookup {
        SystemLookup::Found => Ok(()),
        SystemLookup::NoAddress => {
            let mut m = "'".to_owned();
            m.append(canary);
            m.append("' resolved to no addresses via system path");
            Err(m)
        },
        SystemLookup::Error(e) => {
            let mut m = "'".to_owned();
            m.append(canary);
            m.append("' system-path resolution failed: ");
            m.append(e.as_str());
            Err(m)
        },
        SystemLookup::Aborted(e) => Err("spawn_blocking panic: ".to_owned().concat(e.as_str())),
        SystemLookup::TimedOut(t) => {
            let mut m = "system-path resolution of '".to_owned();
            m.append(canary);
            m.append("' timed out after ");
            m.append(t.as_str());
            Err(m)
        },
    }
}

/// What follows a restore from the baseline.
#[derive(Debug)]
pub enum RestoreStep {
    /// Remove the baseline from disk: it has served.
    RemoveBaseline,
    /// Keep the baseline, so that the restore can be tried again, and report the error.
    Fail(PlatformError),
}

/// What follows a restore from the baseline.
pub fn restore_from_snapshot(restored: Result<(), PlatformError>) -> (r: RestoreStep)
    ensures
        (match restored {
            Ok(_) => r is RemoveBaseline,
            Err(e) => r == RestoreStep::Fail(e),
        }),
{
    match restored {
        Ok(_) => RestoreStep::RemoveBaseline,
        Err(e) => RestoreStep::Fail(e),
    }
}

// ── Laws ────────────────────────────────────────────────────────────────────

/// The machine's configuration may have been changed in this state.
pub open spec fn changed_dns(s: TakeoverState) -> bool {
    s is Verify || s is RollBack || s is ClearTrip || s is Done
}

/// COMMIT is only reached with a baseline that was on disk, or that was written there a step
/// before.
pub proof fn law_commit_has_a_baseline(
    blocked: Seq<char>,
    allowed: Seq<char>,
    before: TakeoverState,
    event: TakeoverEvent,
    after: TakeoverState,
)
    requires
        takeover_step(blocked, allowed, before, event, after),
        after is Commit,
        !(before is Commit),
    ensures
        match (before, event) {
            (TakeoverState::LoadBaseline { current }, TakeoverEvent::BaselineLoaded(existing)) =>
                existing == Some(after->Commit_baseline),
            (
                TakeoverState::PersistBaseline { current, baseline },
                TakeoverEvent::BaselinePersisted(r),
            ) => r is Ok && after->Commit_baseline == baseline,
            _ => false,
        },
{
}

/// A baseline on disk is kept on a re-arm, whatever the configuration is by then.
pub proof fn law_rearm_keeps_the_baseline(
    blocked: Seq<char>,
    allowed: Seq<char>,
    current: DnsSnapshot,
    existing: DnsSnapshot,
    after: TakeoverState,
)
    requires
        takeover_step(
            blocked,
            allowed,
            TakeoverState::LoadBaseline { current },
            TakeoverEvent::BaselineLoaded(Some(existing)),
            after,
        ),
    ensures
        after == (TakeoverState::Commit { current, baseline: existing }),
{
}

/// A takeover that fails after COMMIT was tried has restored the baseline: it can only come
/// from the rollback.
pub proof fn law_failure_after_commit_rolls_back(
    blocked: Seq<char>,
    allowed: Seq<char>,
    before: TakeoverState,
    event: TakeoverEvent,
    after: TakeoverState,
)
    requires
        takeover_step(blocked, allowed, before, event, after),
        before is Commit || changed_dns(before),
        after is Failed,
    ensures
        before is RollBack,
        event is RolledBack,
        after->Failed_error == before->RollBack_error,
{
}

/// The rollback restores the baseline that COMMIT was reached with.
pub proof fn law_rollback_restores_the_baseline(
    blocked: Seq<char>,
    allowed: Seq<char>,
    before: TakeoverState,
    event: TakeoverEvent,
    after: TakeoverState,
)
    requires
        takeover_step(blocked, allowed, before, event, after),
        after is RollBack,
    ensures
        match before {
            TakeoverState::Commit { current, baseline } => after->RollBack_baseline == baseline,
            TakeoverState::Verify { baseline } => after->RollBack_baseline == baseline,
            TakeoverState::RollBack { baseline, error } => after == before,
            _ => false,
        },
{
}

/// The step at `i` of a transaction.
pub open spec fn steps_at(
    blocked: Seq<char>,
    allowed: Seq<char>,
    states: Seq<TakeoverState>,
    events: Seq<TakeoverEvent>,
    i: int,
) -> bool {
    takeover_step(blocked, allowed, states[i], events[i], states[i + 1])
}

/// The states that a transaction went through, and what came in between.
pub open spec fn is_takeover(
    blocked: Seq<char>,
    allowed: Seq<char>,
    states: Seq<TakeoverState>,
    events: Seq<TakeoverEvent>,
) -> bool {
    &&& states.len() == events.len() + 1
    &&& states[0] is Prepare
    &&& forall|i: int|
        0 <= i < events.len() ==> #[trigger] steps_at(blocked, allowed, states, events, i)
}

/// At `i` the blocked canary was sinkholed.
pub open spec fn blocked_passed(
    states: Seq<TakeoverState>,
    events: Seq<TakeoverEvent>,
    i: int,
) -> bool {
    states[i] is ProbeBlocked && (events[i] matches TakeoverEvent::Probed(Ok(ips)) && sinkholed(
        ips@,
    ))
}

/// At `i` the allowed canary resolved.
pub open spec fn allowed_passed(
    states: Seq<TakeoverState>,
    events: Seq<TakeoverEvent>,
    i: int,
) -> bool {
    states[i] is ProbeAllowed && (events[i] matches TakeoverEvent::Probed(Ok(ips))
        && has_real_address(ips@))
}

/// At `i` this baseline was found on disk, or was written there.
pub open spec fn baseline_kept(
    states: Seq<TakeoverState>,
    events: Seq<TakeoverEvent>,
    i: int,
    b: DnsSnapshot,
) -> bool {
    match (states[i], events[i]) {
        (TakeoverState::LoadBaseline { current }, TakeoverEvent::BaselineLoaded(Some(e))) => e == b,
        (
            TakeoverState::PersistBaseline { current, baseline },
            TakeoverEvent::BaselinePersisted(Ok(_)),
        ) => baseline == b,
        _ => false,
    }
}

/// The baseline of a state in which the configuration is about to be changed, or may have been.
pub open spec fn baseline_of(s: TakeoverState) -> Option<DnsSnapshot> {
    match s {
        TakeoverState::Commit { current, baseline } => Some(baseline),
        TakeoverState::Verify { baseline } => Some(baseline),
        TakeoverState::RollBack { baseline, error } => Some(baseline),
        TakeoverState::ClearTrip { baseline } => Some(baseline),
        TakeoverState::Done { baseline } => Some(baseline),
        _ => None,
    }
}

/// The state comes behind the test of the allowed canary.
spec fn is_tested(s: TakeoverState) -> bool {
    s is Snapshot || s is LoadBaseline || s is PersistBaseline || baseline_of(s) is Some
}

proof fn lemma_tested(
    blocked: Seq<char>,
    allowed: Seq<char>,
    states: Seq<TakeoverState>,
    events: Seq<TakeoverEvent>,
    k: int,
)
    requires
        is_takeover(blocked, allowed, states, events),
        0 <= k < states.len(),
    ensures
        states[k] is ProbeAllowed || is_tested(states[k]) ==> exists|i: int|
            0 <= i < k && #[trigger] blocked_passed(states, events, i),
        is_tested(states[k]) ==> exists|i: int|
            0 <= i < k && #[trigger] allowed_passed(states, events, i),
        baseline_of(states[k]) matches Some(b) ==> exists|i: int|
            0 <= i < k && #[trigger] baseline_kept(states, events, i, b),
    decreases k,
{
    if k > 0 {
        let i = k - 1;
        lemma_tested(blocked, allowed, states, events, i);
        assert(steps_at(blocked, allowed, states, events, i));
        if states[k] is ProbeAllowed && !(states[i] is ProbeAllowed) {
            assert(blocked_passed(states, events, i));
        }
        if is_tested(states[k]) && !is_tested(states[i]) {
            assert(states[i] is ProbeAllowed);
            assert(allowed_passed(states, events, i));
        }
        if baseline_of(states[k]) is Some && baseline_of(states[i]) is None {
            assert(baseline_kept(states, events, i, baseline_of(states[k])->0));
        }
    }
}

/// The machine's configuration is not changed before both canaries answered as they must and the
/// baseline that will be restored is on disk.
pub proof fn law_nothing_is_changed_untested(
    blocked: Seq<char>,
    allowed: Seq<char>,
    states: Seq<TakeoverState>,
    events: Seq<TakeoverEvent>,
    k: int,
)
    requires
        is_takeover(blocked, allowed, states, events),
        0 <= k < states.len(),
        baseline_of(states[k]) is Some,
    ensures
        exists|i: int| 0 <= i < k && #[trigger] blocked_passed(states, events, i),
        exists|i: int| 0 <= i < k && #[trigger] allowed_passed(states, events, i),
        exists|i: int|
            0 <= i < k && #[trigger] baseline_kept(states, events, i, baseline_of(states[k])->0),
{
    lemma_tested(blocked, allowed, states, events, k);
}

/// At `j` the baseline was restored, as far as that could be done.
pub open spec fn rolled_back(
    states: Seq<TakeoverState>,
    events: Seq<TakeoverEvent>,
    j: int,
    b: DnsSnapshot,
) -> bool {
    states[j] is RollBack && baseline_of(states[j]) == Some(b) && events[j] is RolledBack
}

proof fn lemma_baseline_stays(
    blocked: Seq<char>,
    allowed: Seq<char>,
    states: Seq<TakeoverState>,
    events: Seq<TakeoverEvent>,
    i: int,
    k: int,
)
    requires
        is_takeover(blocked, allowed, states, events),
        0 <= i <= k < states.len(),
        states[i] is Commit,
    ensures
        baseline_of(states[k]) == baseline_of(states[i]) || (states[k] is Failed && exists|j: int|
            i < j < k && #[trigger] rolled_back(states, events, j, baseline_of(states[i])->0)),
    decreases k - i,
{
    if k > i {
        lemma_baseline_stays(blocked, allowed, states, events, i, k - 1);
        assert(steps_at(blocked, allowed, states, events, k - 1));
        if baseline_of(states[k - 1]) == baseline_of(states[i]) && states[k] is Failed {
            assert(rolled_back(states, events, k - 1, baseline_of(states[i])->0));
        }
    }
}

/// A takeover that reached COMMIT and failed was rolled back: in between, the baseline that
/// COMMIT was reached with was restored.
pub proof fn law_failed_takeover_was_rolled_back(
    blocked: Seq<char>,
    allowed: Seq<char>,
    states: Seq<TakeoverState>,
    events: Seq<TakeoverEvent>,
    i: int,
    k: int,
)
    requires
        is_takeover(blocked, allowed, states, events),
        0 <= i <= k < states.len(),
        states[i] is Commit,
        states[k] is Failed,
    ensures
        exists|j: int|
            i < j < k && #[trigger] rolled_back(states, events, j, baseline_of(states[i])->0),
{
    lemma_baseline_stays(blocked, allowed, states, events, i, k);
}

/// A takeover that ended stays as it ended.
pub proof fn law_ended_takeover_is_final(
    blocked: Seq<char>,
    allowed: Seq<char>,
    before: TakeoverState,
    event: TakeoverEvent,
    after: TakeoverState,
)
    requires
        takeover_step(blocked, allowed, before, event, after),
        before is Done || before is Failed,
    ensures
        after == before,
{
}

/// A name is sinkholed just where every address that it resolved to is `0.0.0.0` or `::`.
pub proof fn law_what_counts_as_sinkholed(ips: &Vec<IpAddr>, r: bool)
    requires
        call_ensures(probe_blocked, (ips,), r),
    ensures
        r <==> forall|i: int|
            0 <= i < ips@.len() ==> #[trigger] ips@[i] == IpAddr::V4(0) || ips@[i] == IpAddr::V6(0),
{
    if r {
        assert forall|i: int| 0 <= i < ips@.len() implies #[trigger] ips@[i] == IpAddr::V4(0) || ips@[i]
            == IpAddr::V6(0) by {
            assert(ips@[i].unspecified());
        }
    }
    if forall|i: int|
        0 <= i < ips@.len() ==> #[trigger] ips@[i] == IpAddr::V4(0) || ips@[i] == IpAddr::V6(0) {
        assert forall|i: int| 0 <= i < ips@.len() implies (#[trigger] ips@[i]).unspecified() by {}
    }
}

/// An address somewhere else: neither `0.0.0.0` nor `::`, nor `::1`, nor one that starts with 127.
pub open spec fn is_elsewhere(ip: IpAddr) -> bool {
    match ip {
        IpAddr::V4(n) => n != 0 && !(0x7f00_0000 <= n <= 0x7fff_ffff),
        IpAddr::V6(n) => n != 0 && n != 1,
    }
}

/// A name resolves just where one of its addresses is somewhere else than this machine.
pub proof fn law_what_counts_as_resolved(ips: &Vec<IpAddr>, r: bool)
    requires
        call_ensures(probe_allowed, (ips,), r),
    ensures
        r <==> exists|i: int| 0 <= i < ips@.len() && is_elsewhere(#[trigger] ips@[i]),
{
    assert forall|i: int| 0 <= i < ips@.len() implies is_elsewhere(#[trigger] ips@[i]) == (
    !ips@[i].loopback() && !ips@[i].unspecified()) by {}
    if r {
        let i = choose|i: int|
            0 <= i < ips@.len() && !(#[trigger] ips@[i]).loopback() && !ips@[i].unspecified();
        assert(is_elsewhere(ips@[i]));
    }
    if exists|i: int| 0 <= i < ips@.len() && is_elsewhere(#[trigger] ips@[i]) {
        let i = choose|i: int| 0 <= i < ips@.len() && is_elsewhere(#[trigger] ips@[i]);
        assert(!ips@[i].loopback());
    }
}

/// A name that answers only with the sinkhole's addresses does not resolve: no answer passes
/// both probes.
pub proof fn law_no_answer_passes_both_probes(ips: &Vec<IpAddr>, blocked: bool, allowed: bool)
    requires
        call_ensures(probe_blocked, (ips,), blocked),
        call_ensures(probe_allowed, (ips,), allowed),
    ensures
        !(blocked && allowed),
{
    law_what_counts_as_sinkholed(ips, blocked);
    law_what_counts_as_resolved(ips, allowed);
}

/// Each state goes on as soon as what it waits for went well, in the order of the transaction,
/// and what it holds is carried along.
pub proof fn law_a_takeover_goes_on(
    before: TakeoverState,
    cfg: &TakeoverConfig,
    event: TakeoverEvent,
    after: TakeoverState,
)
    requires
        call_ensures(TakeoverState::advance, (before, cfg, event), after),
    ensures
        before is Prepare ==> (event matches TakeoverEvent::Prepared(Ok(_)) ==> after is ProbeBlocked),
        before is Snapshot ==> (event matches TakeoverEvent::SnapshotRead(Ok(s)) ==> after == (
        TakeoverState::LoadBaseline { current: s })),
        before is Verify ==> (event matches TakeoverEvent::Verified(Ok(_)) ==> after == (
        TakeoverState::ClearTrip { baseline: before->Verify_baseline })),
        before is ClearTrip && event is TripCleared ==> after == (TakeoverState::Done {
            baseline: before->ClearTrip_baseline,
        }),
        before is Commit ==> (event matches TakeoverEvent::Committed(Ok(_)) ==> after == (
        TakeoverState::Verify { baseline: before->Commit_baseline })),
        before is PersistBaseline ==> (event matches TakeoverEvent::BaselinePersisted(Ok(_)) ==> after == (
        TakeoverState::Commit {
            current: before->PersistBaseline_current,
            baseline: before->PersistBaseline_baseline,
        })),
        before is LoadBaseline ==> (event matches TakeoverEvent::BaselineLoaded(Some(b)) ==> after == (
        TakeoverState::Commit { current: before->LoadBaseline_current, baseline: b })),
        before is LoadBaseline ==> (event matches TakeoverEvent::BaselineLoaded(None) ==> (after
            matches TakeoverState::PersistBaseline { current, baseline } && current
            == before->LoadBaseline_current && baseline@ == current@)),
{
}

/// The self-test goes on just where the blocked canary resolved to nothing but the sinkhole, and
/// the allowed one to an address somewhere else; a probe that failed, or answered otherwise,
/// ends the takeover with the self-test's error.
pub proof fn law_the_self_test_decides(
    before: TakeoverState,
    cfg: &TakeoverConfig,
    answer: Result<Vec<IpAddr>, String>,
    after: TakeoverState,
)
    requires
        call_ensures(TakeoverState::advance, (before, cfg, TakeoverEvent::Probed(answer)), after),
    ensures
        before is ProbeBlocked ==> (after is ProbeAllowed <==> (answer matches Ok(ips) && forall|i: int|
            0 <= i < ips@.len() ==> #[trigger] ips@[i] == IpAddr::V4(0) || ips@[i] == IpAddr::V6(0))),
        before is ProbeAllowed ==> (after is Snapshot <==> (answer matches Ok(ips) && exists|i: int|
            0 <= i < ips@.len() && is_elsewhere(#[trigger] ips@[i]))),
        before is ProbeBlocked && !(after is ProbeAllowed) ==> after is Failed
            && after->Failed_error is SelfTestFailed,
        before is ProbeAllowed && !(after is Snapshot) ==> after is Failed
            && after->Failed_error is SelfTestFailed,
{
    match answer {
        Ok(ips) => {
            lemma_sinkholed(ips@);
            lemma_real_address(ips@);
        },
        Err(_) => {},
    }
}

proof fn lemma_sinkholed(ips: Seq<IpAddr>)
    ensures
        sinkholed(ips) == (forall|i: int|
            0 <= i < ips.len() ==> #[trigger] ips[i] == IpAddr::V4(0) || ips[i] == IpAddr::V6(0)),
{
    if sinkholed(ips) {
        assert forall|i: int| 0 <= i < ips.len() implies #[trigger] ips[i] == IpAddr::V4(0) || ips[i]
            == IpAddr::V6(0) by {
            assert(ips[i].unspecified());
        }
    }
    if forall|i: int|
        0 <= i < ips.len() ==> #[trigger] ips[i] == IpAddr::V4(0) || ips[i] == IpAddr::V6(0) {
        assert forall|i: int| 0 <= i < ips.len() implies (#[trigger] ips[i]).unspecified() by {}
    }
}

proof fn lemma_real_address(ips: Seq<IpAddr>)
    ensures
        has_real_address(ips) == (exists|i: int| 0 <= i < ips.len() && is_elsewhere(#[trigger] ips[i])),
{
    if has_real_address(ips) {
        let i = choose|i: int|
            0 <= i < ips.len() && !(#[trigger] ips[i]).loopback() && !ips[i].unspecified();
        assert(is_elsewhere(ips[i]));
    }
    if exists|i: int| 0 <= i < ips.len() && is_elsewhere(#[trigger] ips[i]) {
        let i = choose|i: int| 0 <= i < ips.len() && is_elsewhere(#[trigger] ips[i]);
        assert(!ips[i].loopback());
    }
}

/// What goes wrong ends the takeover: before anything was changed at once, afterwards through a
/// rollback to the baseline, each time with an error of its own kind.
pub proof fn law_a_takeover_that_goes_wrong_ends(
    before: TakeoverState,
    cfg: &TakeoverConfig,
    event: TakeoverEvent,
    after: TakeoverState,
)
    requires
        call_ensures(TakeoverState::advance, (before, cfg, event), after),
    ensures
        before is Prepare ==> (event matches TakeoverEvent::Prepared(Err(e)) ==> (after
            matches TakeoverState::Failed { error: TakeoverError::PortConflict(s) } && s@
            == "cannot bind loopback UDP: "@ + e@)),
        before is Snapshot ==> (event matches TakeoverEvent::SnapshotRead(Err(e)) ==> after == (
        TakeoverState::Failed { error: TakeoverError::Platform(e) })),
        before is PersistBaseline ==> (event matches TakeoverEvent::BaselinePersisted(Err(e)) ==> after
            == (TakeoverState::Failed { error: TakeoverError::SnapshotPersist(e) })),
        before is Commit ==> (event matches TakeoverEvent::Committed(Err(e)) ==> after == (
        TakeoverState::RollBack {
            baseline: before->Commit_baseline,
            error: TakeoverError::Platform(e),
        })),
        before is Verify ==> (event matches TakeoverEvent::Verified(Err(e)) ==> after == (
        TakeoverState::RollBack {
            baseline: before->Verify_baseline,
            error: TakeoverError::VerifyFailed(e),
        })),
        before is RollBack && event is RolledBack ==> after == (TakeoverState::Failed {
            error: before->RollBack_error,
        }),
        before is Done || before is Failed ==> after == before,
{
}

/// The system resolves through the daemon just where an address was found.
pub proof fn law_a_lookup_without_address_is_no_success(canary: &str, lookup: SystemLookup, r: Result<(), String>)
    requires
        call_ensures(verify_via_system_path, (canary, lookup), r),
    ensures
        r is Ok <==> lookup is Found,
{
}

/// A baseline is removed only once it was restored; after a failure it is kept.
pub proof fn law_an_unrestored_baseline_is_kept(restored: Result<(), PlatformError>, r: RestoreStep)
    requires
        call_ensures(restore_from_snapshot, (restored,), r),
    ensures
        r is RemoveBaseline <==> restored is Ok,
        restored matches Err(e) ==> r == RestoreStep::Fail(e),
{
}

/// The baseline on disk is the one to restore, and is not written again; without one the current
/// configuration is, and has to be written.
pub proof fn law_the_first_baseline_counts(
    existing: Option<DnsSnapshot>,
    current: &DnsSnapshot,
    r: (DnsSnapshot, bool),
)
    requires
        call_ensures(resolve_restore_baseline, (existing, current), r),
    ensures
        r.1 <==> existing is None,
        existing matches Some(e) ==> r.0 == e,
        existing is None ==> r.0@ == current@,
{
}

/// Each byte of a name leads to its end: the root label ends it, a pointer ends it, another label
/// is stepped over, and behind the packet there is no name.
pub proof fn law_names_are_skipped_label_by_label(
    pkt: &[u8],
    pos: usize,
    next: usize,
    r: Result<usize, String>,
    rest: Result<usize, String>,
)
    requires
        countable(pkt@),
        call_ensures(skip_name, (pkt, pos), r),
        call_ensures(skip_name, (pkt, next), rest),
        pos < pkt@.len() ==> next == pos + 1 + pkt@[pos as int],
    ensures
        pos >= pkt@.len() ==> (r matches Err(e) && e@ == "name parse overrun at pos "@ + decimal(
            pos as nat,
        )),
        pos < pkt@.len() && pkt@[pos as int] == 0 ==> r == Ok::<usize, String>((pos + 1) as usize),
        pos < pkt@.len() && pkt@[pos as int] >= 192 ==> r == Ok::<usize, String>((pos + 2) as usize),
        pos < pkt@.len() && 0 < pkt@[pos as int] < 192 ==> (r is Ok <==> rest is Ok) && (r is Ok
            ==> r->Ok_0 == rest->Ok_0),
{
}

/// A query starts with a header that asks one question and wants recursion, and ends with its
/// type and the class IN; each further label stands in front of those, behind the byte that
/// tells its length.
pub proof fn law_queries_are_built_label_by_label(
    domain: &str,
    label: Seq<char>,
    longer: &str,
    qtype: u16,
    r: Vec<u8>,
    more: Vec<u8>,
)
    requires
        call_ensures(build_dns_query, (domain, qtype), r),
        call_ensures(build_dns_query, (longer, qtype), more),
        longer@ == domain@.push('.') + label,
        label.len() > 0,
        !label.contains('.'),
    ensures
        r@.len() >= 17,
        r@.take(12) == seq![0xABu8, 0x01u8, 0x01u8, 0u8, 0u8, 1u8, 0u8, 0u8, 0u8, 0u8, 0u8, 0u8],
        r@[r@.len() - 5] == 0,
        r@[r@.len() - 4] * 256 + r@[r@.len() - 3] == qtype,
        r@[r@.len() - 2] * 256 + r@[r@.len() - 1] == 1,
        more@ == r@.take(r@.len() - 5) + seq![encode_utf8(label).len() as u8] + encode_utf8(label) + r@.skip(
            r@.len() - 5,
        ),
        domain@.len() == 0 ==> r@.len() == 17,
{
    let p = pieces(domain@, '.');
    crate::text::lemma_pieces_behind_separator(domain@, label, '.');
    assert(p.push(label).drop_last() =~= p);
    let tail = seq![0u8, (qtype / 256) as u8, (qtype % 256) as u8, 0u8, 1u8];
    let head = query_header() + labels_bytes(p);
    assert(r@ =~= head + tail);
    assert(r@.take(12) =~= query_header());
    assert(r@.take(r@.len() - 5) =~= head);
    assert(r@.skip(r@.len() - 5) =~= tail);
    assert(more@ =~= head + label_bytes(label) + tail);
    assert(more@ =~= r@.take(r@.len() - 5) + seq![encode_utf8(label).len() as u8] + encode_utf8(label)
        + r@.skip(r@.len() - 5));
    if domain@.len() == 0 {
        assert(p.drop_last() =~= Seq::<Seq<char>>::empty());
        assert(p.last() == Seq::<char>::empty());
        assert(labels_bytes(p.drop_last()).len() == 0);
    }
}

/// The bytes of a record that points back at the question's name.
pub open spec fn record_bytes(rtype: u16, data: Seq<u8>) -> Seq<u8> {
    seq![
        0xC0u8,
        0x0Cu8,
        (rtype / 256) as u8,
        (rtype % 256) as u8,
        0u8,
        1u8,
        0u8,
        0u8,
        0u8,
        60u8,
        (data.len() / 256) as u8,
        (data.len() % 256) as u8,
    ] + data
}

/// Records one behind another.
pub open spec fn records_bytes(records: Seq<(u16, Seq<u8>)>) -> Seq<u8>
    decreases records.len(),
{
    if records.len() == 0 {
        Seq::<u8>::empty()
    } else {
        record_bytes(records[0].0, records[0].1) + records_bytes(records.skip(1))
    }
}

/// The addresses that records hold: four bytes of type A and sixteen of type AAAA.
pub open spec fn held_addresses(records: Seq<(u16, Seq<u8>)>) -> Seq<IpAddr>
    decreases records.len(),
{
    if records.len() == 0 {
        Seq::<IpAddr>::empty()
    } else {
        let d = records[0].1;
        let rest = held_addresses(records.skip(1));
        if records[0].0 == 1 && d.len() == 4 {
            seq![IpAddr::V4((((d[0] * 256 + d[1]) * 256 + d[2]) * 256 + d[3]) as u32)] + rest
        } else if records[0].0 == 28 && d.len() == 16 {
            seq![IpAddr::V6(be_number(d) as u128)] + rest
        } else {
            rest
        }
    }
}

proof fn lemma_four_bytes(d: Seq<u8>)
    requires
        d.len() == 4,
    ensures
        be_number(d) == ((d[0] * 256 + d[1]) * 256 + d[2]) * 256 + d[3],
{
    reveal_with_fuel(be_number, 5);
    let c = d.drop_last();
    let b = c.drop_last();
    let a = b.drop_last();
    assert(c.last() == d[2] && b.last() == d[1] && a.last() == d[0]);
    assert(a.drop_last().len() == 0);
}

proof fn lemma_records_are_read(pkt: Seq<u8>, pos: int, records: Seq<(u16, Seq<u8>)>)
    requires
        0 <= pos <= pkt.len(),
        pkt.skip(pos) == records_bytes(records),
        forall|i: int| 0 <= i < records.len() ==> (#[trigger] records[i]).1.len() < 0x1_0000,
    ensures
        answers_from(pkt, pos, records.len()) == held_addresses(records),
    decreases records.len(),
{
    if records.len() > 0 {
        let r = records[0];
        let d = r.1;
        let b = record_bytes(r.0, d);
        let rest = records_bytes(records.skip(1));
        assert(d.len() < 0x1_0000);
        assert(b.len() == 12 + d.len());
        assert(pkt.skip(pos).len() == pkt.len() - pos);
        assert(pkt.len() - pos == b.len() + rest.len());
        assert forall|k: int| 0 <= k < b.len() implies pkt[pos + k] == #[trigger] b[k] by {
            assert(pkt.skip(pos)[k] == b[k]);
        }
        assert(pkt[pos] == b[0]);
        let p = pos + 2;
        assert(name_end(pkt, pos) == Ok::<int, int>(p));
        assert(pkt[p] == b[2] && pkt[p + 1] == b[3] && pkt[p + 8] == b[10] && pkt[p + 9] == b[11]);
        assert(be16(pkt, p) == r.0);
        assert(be16(pkt, p + 8) == (d.len() / 256) * 256 + d.len() % 256);
        assert(be16(pkt, p + 8) == d.len());
        let end = p + 10 + d.len();
        assert(pkt.subrange(p + 10, end) =~= d) by {
            assert forall|k: int| 0 <= k < d.len() implies pkt.subrange(p + 10, end)[k] == d[k] by {
                assert(pkt[pos + (12 + k)] == b[12 + k]);
            }
        }
        assert(pkt.skip(end) =~= rest) by {
            assert forall|k: int| 0 <= k < rest.len() implies pkt.skip(end)[k] == rest[k] by {
                assert(pkt.skip(pos)[b.len() + k] == rest[k]);
            }
        }
        let tail = records.skip(1);
        assert forall|i: int| 0 <= i < tail.len() implies (#[trigger] tail[i]).1.len() < 0x1_0000 by {
            assert(records[i + 1].1.len() < 0x1_0000);
        }
        lemma_records_are_read(pkt, end, tail);
        if d.len() == 4 {
            lemma_four_bytes(d);
        }
        assert(Seq::<IpAddr>::empty() + held_addresses(tail) =~= held_addresses(tail));
    }
}

/// A response to a query that was built here, with the query's own question behind its header,
/// gives the addresses that its records hold, in order, and nothing for other records; a response
/// with an error code gives none.
pub proof fn law_the_addresses_of_a_response_are_read(
    domain: Seq<char>,
    qtype: u16,
    records: Seq<(u16, Seq<u8>)>,
    pkt: &[u8],
    r: Result<Vec<IpAddr>, String>,
)
    requires
        countable(pkt@),
        call_ensures(parse_dns_a_response, (pkt,), r),
        pkt@.len() >= 12,
        pkt@.skip(12) == query_bytes(domain, qtype).skip(12) + records_bytes(records),
        pkt@[6] * 256 + pkt@[7] == records.len(),
        forall|j: int|
            0 <= j < pieces(domain, '.').len() ==> encode_utf8(#[trigger] pieces(domain, '.')[j]).len()
                < 0xC0,
        forall|i: int| 0 <= i < records.len() ==> (#[trigger] records[i]).1.len() < 0x1_0000,
    ensures
        pkt@[3] % 16 == 0 ==> (r matches Ok(ips) && ips@ == held_addresses(records)),
        pkt@[3] % 16 != 0 ==> (r matches Ok(ips) && ips@.len() == 0),
{
    let p = pkt@;
    let labels = pieces(domain, '.');
    let all = labels_bytes(labels);
    let q = query_bytes(domain, qtype);
    assert forall|j: int| 0 <= j < labels.len() && (#[trigger] labels[j]).len() > 0 implies encode_utf8(
        labels[j],
    ).len() > 0 by {
        lemma_encode_nonempty(labels[j]);
    }
    let body = p.skip(12);
    assert(q.len() == 12 + all.len() + 5);
    assert(body.len() == p.len() - 12 && q.skip(12).len() == q.len() - 12);
    assert(p.len() == q.len() + records_bytes(records).len());
    assert forall|k: int| 0 <= k < q.len() - 12 implies p[12 + k] == #[trigger] q[12 + k] by {
        assert(body[k] == q.skip(12)[k]);
    }
    assert(p.subrange(12, 12 + all.len() as int) =~= all) by {
        assert forall|k: int| 0 <= k < all.len() implies p.subrange(12, 12 + all.len() as int)[k] == all[k] by {
            assert(p[12 + k] == q[12 + k]);
        }
    }
    assert(p[12 + all.len() as int] == q[12 + all.len() as int]);
    lemma_labels_end(p, 12, labels, 0);
    assert(labels_bytes(labels.take(0)).len() == 0);
    let start = 12 + all.len() as int + 5;
    assert(p.skip(start) =~= records_bytes(records)) by {
        assert forall|k: int| 0 <= k < records_bytes(records).len() implies p.skip(start)[k]
            == records_bytes(records)[k] by {
            assert(body[start - 12 + k] == records_bytes(records)[k]);
        }
    }
    lemma_records_are_read(p, start, records);
}

/// A packet that is too short for a header holds no address.
pub proof fn law_cut_packets_hold_nothing(pkt: &[u8], r: Result<Vec<IpAddr>, String>)
    requires
        countable(pkt@),
        call_ensures(parse_dns_a_response, (pkt,), r),
        pkt@.len() < 12,
    ensures
        r matches Ok(ips) && ips@.len() == 0,
{
}

}
