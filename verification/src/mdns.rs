//! Host names learnt from multicast DNS announcements.
use vstd::prelude::*;
use vstd::string::*;
use crate::clock::MAX_SPAN_NANOS;
use crate::clock::{elapsed_nanos, elapsed_span, is_mono_reading, span_nanos};
use crate::net::{hex_digit, IpAddr};
use crate::net::{hex_char, hex_value, lemma_decimal, v4_bits};
use crate::table::{distinct_keys, pair_map};
use crate::table::{lemma_pair_map_absent, lemma_pair_map_at, lemma_pair_map_from, lemma_pair_map_len, lemma_pair_map_remove, lemma_pair_map_update};
use crate::text::{chars_of, parse_unsigned, split_on, strip_suffix, to_ascii_lowercase, trim_end_matches};
use crate::text::{decimal, has_suffix, is_digit, joined, lemma_pieces_of_joined, lower, lower_char, pieces, texts, unsigned_value, without_trailing};

verus! {

/// The largest number of hosts that are remembered.
pub const MAP_CAP: usize = 1024;

/// The multicast group to listen on, `224.0.0.251`, as a number.
pub const MDNS_GROUP_V4_BITS: u32 = 0xe000_00fb;

/// The port to listen on.
pub const MDNS_PORT: u16 = 5353;

/// The longest host name that is remembered, in characters.
pub const MAX_HOSTNAME_LEN: usize = 253;

/// How long the listener waits before it drops expired hosts again, in seconds.
pub const PRUNE_INTERVAL_SECS: u64 = 60;

// ── Host names ──────────────────────────────────────────────────────────────

/// An ASCII control character.
pub open spec fn is_control(c: char) -> bool {
    c as u32 <= 0x1f || c as u32 == 0x7f
}

/// `s` without its ASCII control characters.
pub open spec fn printable(s: Seq<char>) -> Seq<char>
    decreases s.len(),
{
    if s.len() == 0 {
        s
    } else if is_control(s.last()) {
        printable(s.drop_last())
    } else {
        printable(s.drop_last()).push(s.last())
    }
}

/// The first `n` characters of `s`.
pub open spec fn clipped(s: Seq<char>, n: int) -> Seq<char> {
    if s.len() <= n {
        s
    } else {
        s.take(n)
    }
}

/// What is remembered of a host name: its printable characters, up to the longest length; none
/// where nothing is left.
pub open spec fn sanitized(raw: Seq<char>) -> Option<Seq<char>> {
    let s = clipped(printable(raw), MAX_HOSTNAME_LEN as int);
    if s.len() == 0 {
        None
    } else {
        Some(s)
    }
}

/// What is remembered of a host name.
pub fn sanitize_hostname(raw: &str) -> (r: Option<String>)
    ensures
        crate::text::opt_text(r) == sanitized(raw@),
{
    let v = chars_of(raw);
    let mut out = String::new();
    let mut n: usize = 0;
    let mut i: usize = 0;
    while i < v.len()
        invariant
            0 <= i <= v.len(),
            v@ == raw@,
            n <= MAX_HOSTNAME_LEN,
            out@ == clipped(printable(raw@.take(i as int)), MAX_HOSTNAME_LEN as int),
            n == out@.len(),
        decreases v.len() - i,
    {
        let c = v[i];
        let control = c as u32 <= 0x1f || c as u32 == 0x7f;
        proof {
            assert(raw@.take(i + 1).drop_last() =~= raw@.take(i as int));
            assert(raw@.take(i + 1).last() == c);
        }
        let ghost before = printable(raw@.take(i as int));
        if !control {
            if n < MAX_HOSTNAME_LEN {
                out.push(c);
                n += 1;
            }
            proof {
                assert(clipped(before.push(c), MAX_HOSTNAME_LEN as int) =~= out@);
            }
        }
        i += 1;
    }
    proof {
        assert(raw@.take(i as int) =~= raw@);
    }
    if n == 0 {
        None
    } else {
        Some(out)
    }
}

proof fn lemma_printable_has_no_control(s: Seq<char>)
    ensures
        forall|i: int| 0 <= i < printable(s).len() ==> !is_control(#[trigger] printable(s)[i]),
        printable(s).len() <= s.len(),
    decreases s.len(),
{
    if s.len() > 0 {
        lemma_printable_has_no_control(s.drop_last());
    }
}

/// A host name that is remembered is not empty, is not too long and holds no control
/// character.
pub proof fn law_remembered_names_are_printable(raw: Seq<char>)
    ensures
        sanitized(raw) matches Some(s) ==> 0 < s.len() <= MAX_HOSTNAME_LEN && forall|i: int|
            0 <= i < s.len() ==> !is_control(#[trigger] s[i]),
{
    lemma_printable_has_no_control(raw);
    if sanitized(raw) is Some {
        let p = printable(raw);
        let s = sanitized(raw)->0;
        assert forall|i: int| 0 <= i < s.len() implies !is_control(#[trigger] s[i]) by {
            assert(s[i] == p[i]);
        }
    }
}

proof fn lemma_printable_keeps(s: Seq<char>)
    requires
        forall|i: int| 0 <= i < s.len() ==> !is_control(#[trigger] s[i]),
    ensures
        printable(s) == s,
    decreases s.len(),
{
    if s.len() > 0 {
        let f = s.drop_last();
        assert forall|i: int| 0 <= i < f.len() implies !is_control(#[trigger] f[i]) by {
            assert(f[i] == s[i]);
        }
        lemma_printable_keeps(f);
        assert(!is_control(s[s.len() - 1]));
        assert(f.push(s.last()) =~= s);
    }
}

/// A printable name of an acceptable length is remembered as it is.
pub proof fn law_clean_names_pass_unchanged(raw: Seq<char>)
    requires
        0 < raw.len() <= MAX_HOSTNAME_LEN,
        forall|i: int| 0 <= i < raw.len() ==> !is_control(#[trigger] raw[i]),
    ensures
        sanitized(raw) == Some(raw),
{
    lemma_printable_keeps(raw);
}

// ── Reverse names ───────────────────────────────────────────────────────────

/// The IPv4 address that the labels before `in-addr.arpa` spell: its octets in decimal, the last
/// one first.
pub open spec fn octets_address(labels: Seq<Seq<char>>) -> Option<IpAddr> {
    if labels.len() != 4 {
        None
    } else {
        match (
            unsigned_value(labels[3], 255),
            unsigned_value(labels[2], 255),
            unsigned_value(labels[1], 255),
            unsigned_value(labels[0], 255),
        ) {
            (Some(a), Some(b), Some(c), Some(d)) => Some(IpAddr::V4(v4_bits(a, b, c, d) as u32)),
            _ => None,
        }
    }
}

/// The value of a label that is one hexadecimal digit.
pub open spec fn nibble(label: Seq<char>) -> Option<nat> {
    if label.len() == 1 {
        hex_value(label[0])
    } else {
        None
    }
}

/// The number that the labels spell: a hexadecimal digit each, the lowest one first.
pub open spec fn nibbles_value(labels: Seq<Seq<char>>) -> Option<nat>
    decreases labels.len(),
{
    if labels.len() == 0 {
        Some(0)
    } else {
        match (nibble(labels[0]), nibbles_value(labels.skip(1))) {
            (Some(n), Some(rest)) => Some(rest * 16 + n),
            _ => None,
        }
    }
}

/// The IPv6 address that the labels before `ip6.arpa` spell.
pub open spec fn nibbles_address(labels: Seq<Seq<char>>) -> Option<IpAddr> {
    if labels.len() != 32 {
        None
    } else {
        match nibbles_value(labels) {
            Some(n) => Some(IpAddr::V6(n as u128)),
            None => None,
        }
    }
}

/// The labels of `name` before the zone it lies in.
pub open spec fn labels_before(name: Seq<char>, zone: Seq<char>) -> Seq<Seq<char>> {
    pieces(name.take(name.len() - zone.len()), '.')
}

/// The address whose reverse name in `in-addr.arpa` or in `ip6.arpa` is `arpa`.
pub open spec fn arpa_ip(arpa: Seq<char>) -> Option<IpAddr> {
    let name = lower(without_trailing(arpa, '.'));
    if has_suffix(name, ".in-addr.arpa"@) {
        octets_address(labels_before(name, ".in-addr.arpa"@))
    } else if has_suffix(name, ".ip6.arpa"@) {
        nibbles_address(labels_before(name, ".ip6.arpa"@))
    } else {
        None
    }
}

/// 16 to the power of `n`.
spec fn pow16(n: nat) -> nat
    decreases n,
{
    if n == 0 {
        1
    } else {
        16 * pow16((n - 1) as nat)
    }
}

proof fn lemma_pow16_grows(a: nat, b: nat)
    requires
        a <= b,
    ensures
        pow16(a) <= pow16(b),
    decreases b,
{
    if a < b {
        lemma_pow16_grows(a, (b - 1) as nat);
    }
}

/// What 32 labels at most spell fits an address.
proof fn lemma_nibbles_fit(labels: Seq<Seq<char>>)
    requires
        labels.len() <= 32,
    ensures
        nibbles_value(labels) matches Some(n) ==> n < pow16(labels.len()) && n <= u128::MAX,
    decreases labels.len(),
{
    if labels.len() > 0 {
        lemma_nibbles_fit(labels.skip(1));
    }
    lemma_pow16_grows(labels.len(), 32);
    assert(pow16(32) == u128::MAX + 1) by {
        reveal_with_fuel(pow16, 33);
    }
}

proof fn lemma_nibbles_stuck(labels: Seq<Seq<char>>, i: int)
    requires
        0 <= i <= labels.len(),
        nibbles_value(labels.skip(i)) is None,
    ensures
        nibbles_value(labels) is None,
    decreases i,
{
    if i > 0 {
        assert(labels.skip(i - 1).skip(1) =~= labels.skip(i));
        lemma_nibbles_stuck(labels, i - 1);
    } else {
        assert(labels.skip(0) =~= labels);
    }
}

/// The IPv4 address that labels spell.
fn read_octets(p: &Vec<String>) -> (r: Option<IpAddr>)
    ensures
        r == octets_address(texts(p@)),
{
    if p.len() != 4 {
        return None;
    }
    proof {
        assert(texts(p@)[0] == p@[0]@);
        assert(texts(p@)[1] == p@[1]@);
        assert(texts(p@)[2] == p@[2]@);
        assert(texts(p@)[3] == p@[3]@);
    }
    match (
        parse_unsigned(p[3].as_str(), 255),
        parse_unsigned(p[2].as_str(), 255),
        parse_unsigned(p[1].as_str(), 255),
        parse_unsigned(p[0].as_str(), 255),
    ) {
        (Some(a), Some(b), Some(c), Some(d)) => Some(
            IpAddr::V4(((a as u32 * 256 + b as u32) * 256 + c as u32) * 256 + d as u32),
        ),
        _ => None,
    }
}

/// The value of a label that is one hexadecimal digit.
fn read_nibble(label: &str) -> (r: Option<u16>)
    ensures
        (match r {
            Some(n) => nibble(label@) == Some(n as nat) && n < 16,
            None => nibble(label@) is None,
        }),
{
    let v = chars_of(label);
    if v.len() != 1 {
        return None;
    }
    hex_digit(v[0])
}

/// The IPv6 address that labels spell.
fn read_nibbles(p: &Vec<String>) -> (r: Option<IpAddr>)
    ensures
        r == nibbles_address(texts(p@)),
{
    if p.len() != 32 {
        return None;
    }
    let ghost labels = texts(p@);
    let mut n: u128 = 0;
    let mut i: usize = p.len();
    proof {
        assert(labels.skip(32) =~= Seq::<Seq<char>>::empty());
    }
    while i > 0
        invariant
            0 <= i <= 32,
            p.len() == 32,
            labels == texts(p@),
            nibbles_value(labels.skip(i as int)) == Some(n as nat),
        decreases i,
    {
        i -= 1;
        proof {
            assert(labels.skip(i as int)[0] == p@[i as int]@);
            assert(labels.skip(i as int).skip(1) =~= labels.skip(i + 1));
            lemma_nibbles_fit(labels.skip(i as int));
        }
        match read_nibble(p[i].as_str()) {
            Some(d) => {
                n = n * 16 + d as u128;
            },
            None => {
                proof {
                    lemma_nibbles_stuck(labels, i as int);
                }
                return None;
            },
        }
    }
    proof {
        assert(labels.skip(0) =~= labels);
    }
    Some(IpAddr::V6(n))
}

/// The address whose reverse name is `arpa`.
pub fn parse_arpa_to_ip(arpa: &str) -> (r: Option<IpAddr>)
    ensures
        r == arpa_ip(arpa@),
{
    let bare = trim_end_matches(arpa, '.');
    let name = to_ascii_lowercase(bare.as_str());
    match strip_suffix(name.as_str(), ".in-addr.arpa") {
        Some(rest) => read_octets(&split_on(rest.as_str(), '.')),
        None => match strip_suffix(name.as_str(), ".ip6.arpa") {
            Some(rest) => read_nibbles(&split_on(rest.as_str(), '.')),
            None => None,
        },
    }
}

/// The labels before `in-addr.arpa` in the reverse name of an IPv4 address.
pub open spec fn octet_labels(n: nat) -> Seq<Seq<char>> {
    seq![
        decimal(n % 256),
        decimal(n / 256 % 256),
        decimal(n / 65_536 % 256),
        decimal(n / 16_777_216 % 256),
    ]
}

/// The last `k` hexadecimal digits of a number, a label each, the lowest one first.
pub open spec fn nibble_labels(n: nat, k: nat) -> Seq<Seq<char>>
    decreases k,
{
    if k == 0 {
        Seq::<Seq<char>>::empty()
    } else {
        seq![seq![hex_char(n % 16)]] + nibble_labels(n / 16, (k - 1) as nat)
    }
}

/// The reverse name of an address.
pub open spec fn reverse_name(ip: IpAddr) -> Seq<char> {
    match ip {
        IpAddr::V4(n) => joined(octet_labels(n as nat), seq!['.']) + ".in-addr.arpa"@,
        IpAddr::V6(n) => joined(nibble_labels(n as nat, 32), seq!['.']) + ".ip6.arpa"@,
    }
}

/// A label of a reverse name: no dot and nothing in upper case.
spec fn is_plain_label(l: Seq<char>) -> bool {
    forall|i: int| 0 <= i < l.len() ==> #[trigger] l[i] != '.' && lower_char(l[i]) == l[i]
}

proof fn lemma_octet_label(n: nat)
    requires
        n < 256,
    ensures
        is_plain_label(decimal(n)),
        unsigned_value(decimal(n), 255) == Some(n),
{
    lemma_decimal(n);
    let d = decimal(n);
    assert(is_digit(d[0]));
    assert forall|i: int| 0 <= i < d.len() implies #[trigger] d[i] != '.' && lower_char(d[i])
        == d[i] by {
        assert(is_digit(d[i]));
    }
}

proof fn lemma_nibble_labels(n: nat, k: nat)
    requires
        n < pow16(k),
    ensures
        nibble_labels(n, k).len() == k,
        forall|i: int| 0 <= i < k ==> is_plain_label(#[trigger] nibble_labels(n, k)[i]),
        nibbles_value(nibble_labels(n, k)) == Some(n),
    decreases k,
{
    if k > 0 {
        let l = nibble_labels(n, k);
        let f = nibble_labels(n / 16, (k - 1) as nat);
        lemma_nibble_labels(n / 16, (k - 1) as nat);
        assert(l.skip(1) =~= f);
        assert(l[0] == seq![hex_char(n % 16)]);
        assert(hex_value(hex_char(n % 16)) == Some(n % 16));
        assert forall|i: int| 0 <= i < k implies is_plain_label(#[trigger] l[i]) by {
            if i > 0 {
                assert(l[i] == f[i - 1]);
            }
        }
    }
}

proof fn lemma_joined_labels_are_plain(labels: Seq<Seq<char>>)
    requires
        forall|i: int| 0 <= i < labels.len() ==> is_plain_label(#[trigger] labels[i]),
    ensures
        lower(joined(labels, seq!['.'])) == joined(labels, seq!['.']),
    decreases labels.len(),
{
    let j = joined(labels, seq!['.']);
    if labels.len() > 1 {
        let f = labels.drop_last();
        assert forall|i: int| 0 <= i < f.len() implies is_plain_label(#[trigger] f[i]) by {
            assert(f[i] == labels[i]);
        }
        lemma_joined_labels_are_plain(f);
        let a = joined(f, seq!['.']);
        let l = labels[labels.len() - 1];
        assert(is_plain_label(l));
        assert forall|i: int| 0 <= i < j.len() implies #[trigger] lower(j)[i] == j[i] by {
            if i < a.len() {
                assert(lower(a)[i] == a[i]);
            } else if i > a.len() {
                assert(j[i] == l[i - a.len() - 1]);
            }
        }
    } else if labels.len() == 1 {
        assert(is_plain_label(labels[0]));
    }
    assert(lower(j) =~= j);
}

/// Labels before a zone are found again in the name, with or without a dot at its end.
proof fn lemma_labels_before(labels: Seq<Seq<char>>, zone: Seq<char>)
    requires
        labels.len() > 0,
        forall|i: int| 0 <= i < labels.len() ==> is_plain_label(#[trigger] labels[i]),
        zone.len() > 0,
        zone.last() != '.',
        lower(zone) == zone,
    ensures
        ({
            let name = joined(labels, seq!['.']) + zone;
            &&& lower(without_trailing(name, '.')) == name
            &&& lower(without_trailing(name.push('.'), '.')) == name
            &&& has_suffix(name, zone)
            &&& labels_before(name, zone) == labels
        }),
{
    let j = joined(labels, seq!['.']);
    let name = j + zone;
    lemma_joined_labels_are_plain(labels);
    assert(name.last() == zone.last());
    assert(name.push('.').drop_last() =~= name);
    assert forall|i: int| 0 <= i < name.len() implies #[trigger] lower(name)[i] == name[i] by {
        if i < j.len() {
            assert(lower(j)[i] == j[i]);
        } else {
            assert(lower(zone)[i - j.len()] == zone[i - j.len()]);
        }
    }
    assert(lower(name) =~= name);
    assert(name.skip(name.len() - zone.len()) =~= zone);
    assert(name.take(name.len() - zone.len()) =~= j);
    assert forall|i: int| 0 <= i < labels.len() implies !(#[trigger] labels[i]).contains('.') by {
        assert(is_plain_label(labels[i]));
    }
    lemma_pieces_of_joined(labels, '.');
}

proof fn lemma_octet_labels(n: nat)
    requires
        n <= u32::MAX,
    ensures
        octet_labels(n).len() == 4,
        forall|i: int| 0 <= i < 4 ==> is_plain_label(#[trigger] octet_labels(n)[i]),
        octets_address(octet_labels(n)) == Some(IpAddr::V4(n as u32)),
{
    let l = octet_labels(n);
    let d = n % 256;
    let c = n / 256 % 256;
    let b = n / 65_536 % 256;
    let a = n / 16_777_216 % 256;
    lemma_octet_label(a);
    lemma_octet_label(b);
    lemma_octet_label(c);
    lemma_octet_label(d);
    assert(v4_bits(a, b, c, d) == n);
    assert(l[0] == decimal(d) && l[1] == decimal(c) && l[2] == decimal(b) && l[3] == decimal(a));
}

/// The ends of the two zones differ, and neither ends with a dot.
proof fn lemma_zones()
    ensures
        ".in-addr.arpa"@.len() == 13,
        ".in-addr.arpa"@[7] == 'r',
        ".in-addr.arpa"@.last() == 'a',
        lower(".in-addr.arpa"@) == ".in-addr.arpa"@,
        ".ip6.arpa"@.len() == 9,
        ".ip6.arpa"@[3] == '6',
        ".ip6.arpa"@.last() == 'a',
        lower(".ip6.arpa"@) == ".ip6.arpa"@,
{
    reveal_strlit(".in-addr.arpa");
    reveal_strlit(".ip6.arpa");
    assert(lower(".in-addr.arpa"@) =~= ".in-addr.arpa"@);
    assert(lower(".ip6.arpa"@) =~= ".ip6.arpa"@);
}

proof fn lemma_v6_name_is_no_v4_name(name: Seq<char>)
    requires
        has_suffix(name, ".ip6.arpa"@),
    ensures
        !has_suffix(name, ".in-addr.arpa"@),
{
    lemma_zones();
    let v4 = ".in-addr.arpa"@;
    let v6 = ".ip6.arpa"@;
    assert(name.skip(name.len() - 9)[3] == v6[3]);
    if has_suffix(name, v4) {
        assert(name.skip(name.len() - 13)[7] == v4[7]);
    }
}

/// The reverse name of every address is read back, with or without a dot at its end.
pub proof fn law_reverse_names_are_read_back(ip: IpAddr)
    ensures
        arpa_ip(reverse_name(ip)) == Some(ip),
        arpa_ip(reverse_name(ip).push('.')) == Some(ip),
{
    lemma_zones();
    match ip {
        IpAddr::V4(n) => {
            lemma_octet_labels(n as nat);
            lemma_labels_before(octet_labels(n as nat), ".in-addr.arpa"@);
        },
        IpAddr::V6(n) => {
            assert(pow16(32) == u128::MAX + 1) by {
                reveal_with_fuel(pow16, 33);
            }
            lemma_nibble_labels(n as nat, 32);
            lemma_labels_before(nibble_labels(n as nat, 32), ".ip6.arpa"@);
            lemma_v6_name_is_no_v4_name(reverse_name(ip));
        },
    }
}

// ── The map ─────────────────────────────────────────────────────────────────

/// One host.
#[derive(Debug)]
struct MapEntry {
    ip: IpAddr,
    hostname: String,
    /// When the entry expires, in nanoseconds after the map was made.
    expires_at: u128,
}

/// Host names by address, each with the time at which it expires.
#[derive(Debug)]
pub struct MdnsMap {
    entries: Vec<MapEntry>,
    made_at: std::time::Instant,
}

/// A host name and the time at which it expires.
pub type Host = (Seq<char>, u128);

/// The entries as pairs.
spec fn pairs(e: Seq<MapEntry>) -> Seq<(IpAddr, Host)> {
    e.map_values(|m: MapEntry| (m.ip, (m.hostname@, m.expires_at)))
}

/// No entry of `m` expires before the one under `ip`.
pub open spec fn first_to_expire(m: Map<IpAddr, Host>, ip: IpAddr) -> bool {
    m.dom().contains(ip) && forall|o: IpAddr| #[trigger]
        m.dom().contains(o) ==> m[ip].1 <= m[o].1
}

/// `after` is `m` with a host put in.  Where the map is full and the address is new, one of
/// the entries that expire first makes room.
pub open spec fn host_put_in(
    m: Map<IpAddr, Host>,
    ip: IpAddr,
    host: Host,
    after: Map<IpAddr, Host>,
) -> bool {
    if m.dom().len() >= MAP_CAP && !m.dom().contains(ip) {
        exists|victim: IpAddr|
            #[trigger] first_to_expire(m, victim) && after == m.remove(victim).insert(ip, host)
    } else {
        after == m.insert(ip, host)
    }
}

/// The entries of `m` that have not expired.
pub open spec fn live(m: Map<IpAddr, Host>, now: u128) -> Map<IpAddr, Host> {
    m.restrict(Set::new(|ip: IpAddr| m.dom().contains(ip) && m[ip].1 > now))
}

/// The expiry of an entry that is put in at `now`.
pub open spec fn expiry(now: u128, ttl_secs: u32) -> int {
    now + ttl_secs * 1_000_000_000
}

impl View for MdnsMap {
    type V = Map<IpAddr, Host>;

    closed spec fn view(&self) -> Map<IpAddr, Host> {
        pair_map(pairs(self.entries@))
    }
}

impl MdnsMap {
    /// No address stands in the map twice, and the map is not over its cap.
    pub closed spec fn wf(&self) -> bool {
        distinct_keys(pairs(self.entries@)) && self.entries@.len() <= MAP_CAP
    }

    /// The moment from which the times in the map are counted.
    pub closed spec fn origin(&self) -> std::time::Instant {
        self.made_at
    }

    /// An empty map.
    pub fn new() -> (r: MdnsMap)
        ensures
            r.wf(),
            r@ == Map::<IpAddr, Host>::empty(),
            is_mono_reading(r.origin()),
    {
        MdnsMap { entries: Vec::new(), made_at: std::time::Instant::now() }
    }

    /// The nanoseconds since the map was made, by the clock as it stands.
    pub fn clock(&self) -> (r: u128)
        ensures
            r <= MAX_SPAN_NANOS,
            elapsed_nanos(self.origin(), r),
    {
        let d = self.made_at.elapsed();
        let n: u128 = d.as_nanos();
        proof {
            assert(elapsed_span(self.made_at, d));
            assert(span_nanos(d, n));
        }
        n
    }

    /// The position of an address, where it stands in the map.
    fn position(&self, ip: IpAddr) -> (r: Option<usize>)
        ensures
            (match r {
                Some(i) => i < self.entries@.len() && pairs(self.entries@)[i as int].0 == ip,
                None => forall|j: int|
                    0 <= j < self.entries@.len() ==> #[trigger] pairs(self.entries@)[j].0 != ip,
            }),
    {
        let mut i: usize = 0;
        while i < self.entries.len()
            invariant
                0 <= i <= self.entries.len(),
                forall|j: int| 0 <= j < i ==> #[trigger] pairs(self.entries@)[j].0 != ip,
            decreases self.entries.len() - i,
        {
            if self.entries[i].ip == ip {
                return Some(i);
            }
            i += 1;
        }
        None
    }

    /// The host name of an address at `now`.  An entry that has expired is dropped.
    pub fn get_at(&mut self, ip: IpAddr, now: u128) -> (r: Option<String>)
        requires
            old(self).wf(),
        ensures
            final(self).wf(),
            final(self).origin() == old(self).origin(),
            crate::text::opt_text(r) == if old(self)@.dom().contains(ip) && old(self)@[ip].1 > now {
                Some(old(self)@[ip].0)
            } else {
                None
            },
            final(self)@ == if old(self)@.dom().contains(ip) && old(self)@[ip].1 <= now {
                old(self)@.remove(ip)
            } else {
                old(self)@
            },
    {
        let ghost before = pairs(self.entries@);
        match self.position(ip) {
            Some(i) => {
                proof {
                    lemma_pair_map_at(before, i as int);
                }
                if self.entries[i].expires_at > now {
                    return Some(self.entries[i].hostname.clone());
                }
                proof {
                    lemma_pair_map_remove(before, i as int);
                }
                self.entries.remove(i);
                proof {
                    assert(pairs(self.entries@) =~= before.remove(i as int));
                }
                None
            },
            None => {
                proof {
                    lemma_pair_map_absent(before, ip);
                }
                None
            },
        }
    }

    /// The host name of an address.  An entry that has expired is not found.
    pub fn get(&mut self, ip: IpAddr) -> (r: Option<String>)
        requires
            old(self).wf(),
        ensures
            final(self).wf(),
            r matches Some(h) ==> old(self)@.dom().contains(ip) && old(self)@[ip].0 == h@
                && final(self)@ == old(self)@,
            r is None ==> final(self)@ == old(self)@.remove(ip),
            exists|now: u128| #[trigger]
                elapsed_nanos(old(self).origin(), now) && (r is Some <==> old(self)@.dom().contains(
                    ip,
                ) && old(self)@[ip].1 > now),
            final(self).origin() == old(self).origin(),
    {
        let now = self.clock();
        let ghost m = self@;
        let r = self.get_at(ip, now);
        proof {
            if r is None && !m.dom().contains(ip) {
                assert(m =~= m.remove(ip));
            }
        }
        r
    }

    /// The position of an entry that no other expires before.
    fn earliest(&self) -> (r: usize)
        requires
            self.entries@.len() > 0,
        ensures
            r < self.entries@.len(),
            forall|j: int|
                0 <= j < self.entries@.len() ==> self.entries@[r as int].expires_at
                    <= #[trigger] self.entries@[j].expires_at,
    {
        let mut best: usize = 0;
        let mut i: usize = 1;
        while i < self.entries.len()
            invariant
                1 <= i <= self.entries.len(),
                best < i,
                forall|j: int|
                    0 <= j < i ==> self.entries@[best as int].expires_at
                        <= #[trigger] self.entries@[j].expires_at,
            decreases self.entries.len() - i,
        {
            if self.entries[i].expires_at < self.entries[best].expires_at {
                best = i;
            }
            i += 1;
        }
        best
    }

    /// Puts a host in at `now`.
    pub fn insert_at(&mut self, ip: IpAddr, hostname: String, ttl_secs: u32, now: u128)
        requires
            old(self).wf(),
            now <= MAX_SPAN_NANOS,
        ensures
            final(self).wf(),
            final(self)@.dom().finite(),
            final(self)@.dom().len() <= MAP_CAP,
            host_put_in(
                old(self)@,
                ip,
                (hostname@, expiry(now, ttl_secs) as u128),
                final(self)@,
            ),
            final(self).origin() == old(self).origin(),
    {
        let expires_at: u128 = now + ttl_secs as u128 * 1_000_000_000;
        let ghost host: Host = (hostname@, expires_at);
        let ghost before = pairs(self.entries@);
        let ghost m = self@;
        proof {
            lemma_pair_map_len(before);
        }
        match self.position(ip) {
            Some(i) => {
                proof {
                    lemma_pair_map_at(before, i as int);
                    lemma_pair_map_update(before, i as int, host);
                }
                self.entries.set(i, MapEntry { ip, hostname, expires_at });
                proof {
                    assert(pairs(self.entries@) =~= before.update(i as int, (before[i as int].0, host)));
                }
            },
            None => {
                proof {
                    lemma_pair_map_absent(before, ip);
                }
                if self.entries.len() >= MAP_CAP {
                    let k = self.earliest();
                    let ghost victim = before[k as int].0;
                    proof {
                        lemma_pair_map_at(before, k as int);
                        lemma_pair_map_remove(before, k as int);
                        assert forall|o: IpAddr| #[trigger] m.dom().contains(o) implies m[victim].1
                            <= m[o].1 by {
                            lemma_pair_map_from(before, o);
                            let j = choose|j: int| 0 <= j < before.len() && #[trigger] before[j].0 == o;
                            lemma_pair_map_at(before, j);
                            assert(self.entries@[k as int].expires_at <= self.entries@[j].expires_at);
                        }
                        assert(first_to_expire(m, victim));
                    }
                    self.entries.remove(k);
                    proof {
                        assert(pairs(self.entries@) =~= before.remove(k as int));
                    }
                }
                let ghost mid = pairs(self.entries@);
                self.entries.push(MapEntry { ip, hostname, expires_at });
                proof {
                    assert(pairs(self.entries@) =~= mid.push((ip, host)));
                    assert(pairs(self.entries@).drop_last() =~= mid);
                    assert forall|j: int| 0 <= j < mid.len() implies #[trigger] mid[j].0 != ip by {
                        assert(exists|x: int| 0 <= x < before.len() && before[x].0 == mid[j].0);
                    }
                    assert(distinct_keys(pairs(self.entries@)));
                }
            },
        }
        proof {
            lemma_pair_map_len(pairs(self.entries@));
        }
    }

    /// Puts a host in now.
    pub fn insert(&mut self, ip: IpAddr, hostname: String, ttl_secs: u32)
        requires
            old(self).wf(),
        ensures
            final(self).wf(),
            final(self)@.dom().finite(),
            final(self)@.dom().len() <= MAP_CAP,
            exists|now: u128| #[trigger]
                elapsed_nanos(old(self).origin(), now) && host_put_in(
                    old(self)@,
                    ip,
                    (hostname@, expiry(now, ttl_secs) as u128),
                    final(self)@,
                ),
            final(self).origin() == old(self).origin(),
    {
        let now = self.clock();
        self.insert_at(ip, hostname, ttl_secs, now);
    }

    /// Drops the entries that have expired at `now`.
    pub fn prune_expired_at(&mut self, now: u128)
        requires
            old(self).wf(),
        ensures
            final(self).wf(),
            final(self)@ == live(old(self)@, now),
            final(self).origin() == old(self).origin(),
    {
        let ghost first = self@;
        let mut i: usize = 0;
        proof {
            assert(live(first, now) =~= live(self@, now));
        }
        while i < self.entries.len()
            invariant
                0 <= i <= self.entries.len(),
                self.wf(),
                self.origin() == old(self).origin(),
                live(self@, now) == live(first, now),
                forall|j: int| 0 <= j < i ==> #[trigger] self.entries@[j].expires_at > now,
            decreases self.entries.len() - i,
        {
            let ghost before = pairs(self.entries@);
            let ghost m = self@;
            proof {
                lemma_pair_map_at(before, i as int);
            }
            if self.entries[i].expires_at > now {
                i += 1;
            } else {
                proof {
                    lemma_pair_map_remove(before, i as int);
                }
                self.entries.remove(i);
                proof {
                    assert(pairs(self.entries@) =~= before.remove(i as int));
                    assert(live(self@, now) =~= live(m, now));
                }
            }
        }
        proof {
            let e = pairs(self.entries@);
            assert forall|ip: IpAddr| #[trigger] self@.dom().contains(ip) implies self@[ip].1 > now by {
                lemma_pair_map_from(e, ip);
                let j = choose|j: int| 0 <= j < e.len() && #[trigger] e[j].0 == ip;
                lemma_pair_map_at(e, j);
                assert(self.entries@[j].expires_at > now);
            }
            assert(live(self@, now) =~= self@);
        }
    }

    /// Drops the entries that have expired.
    pub fn prune_expired(&mut self)
        requires
            old(self).wf(),
        ensures
            final(self).wf(),
            exists|now: u128| #[trigger]
                elapsed_nanos(old(self).origin(), now) && final(self)@ == live(old(self)@, now),
            final(self).origin() == old(self).origin(),
    {
        let now = self.clock();
        self.prune_expired_at(now);
    }

    /// The number of entries that have not expired at `now`.
    pub fn len_at(&self, now: u128) -> (r: usize)
        requires
            self.wf(),
        ensures
            r == live(self@, now).dom().len(),
            live(self@, now).dom().finite(),
    {
        let mut n: usize = 0;
        let mut i: usize = 0;
        let ghost e = pairs(self.entries@);
        proof {
            assert(live(pair_map(e.take(0)), now).dom() =~= Set::<IpAddr>::empty());
        }
        while i < self.entries.len()
            invariant
                0 <= i <= self.entries.len(),
                self.entries.len() <= MAP_CAP,
                e == pairs(self.entries@),
                distinct_keys(e),
                n <= i,
                n == live(pair_map(e.take(i as int)), now).dom().len(),
                live(pair_map(e.take(i as int)), now).dom().finite(),
            decreases self.entries.len() - i,
        {
            let ghost m = pair_map(e.take(i as int));
            let ghost m2 = pair_map(e.take(i + 1));
            proof {
                assert(e.take(i + 1).drop_last() =~= e.take(i as int));
                let f = e.take(i as int);
                assert forall|j: int| 0 <= j < f.len() implies #[trigger] f[j].0 != e[i as int].0 by {
                    assert(e[j].0 != e[i as int].0);
                }
                lemma_pair_map_absent(f, e[i as int].0);
            }
            if self.entries[i].expires_at > now {
                proof {
                    assert(live(m2, now).dom() =~= live(m, now).dom().insert(e[i as int].0));
                }
                n += 1;
            } else {
                proof {
                    assert(live(m2, now).dom() =~= live(m, now).dom());
                }
            }
            i += 1;
        }
        proof {
            assert(e.take(i as int) =~= e);
        }
        n
    }

    /// The number of entries that have not expired.
    pub fn len(&self) -> (r: usize)
        requires
            self.wf(),
        ensures
            exists|now: u128| #[trigger]
                elapsed_nanos(self.origin(), now) && r == live(self@, now).dom().len(),
    {
        self.len_at(self.clock())
    }

    /// Whether no entry is left that has not expired.
    pub fn is_empty(&self) -> (r: bool)
        requires
            self.wf(),
        ensures
            exists|now: u128| #[trigger]
                elapsed_nanos(self.origin(), now) && r == (live(self@, now).dom().len() == 0),
    {
        let n = self.len();
        n == 0
    }
}

// ── Packets ─────────────────────────────────────────────────────────────────

/// What a record says.
#[derive(Debug)]
pub enum RecordData {
    /// The IPv4 address of the named host.
    A(u32),
    /// The IPv6 address of the named host.
    Aaaa(u128),
    /// The host under a reverse name.
    Ptr(String),
    /// Anything else.
    Other,
}

/// What a record says, as numbers and text.
pub enum RecordDataModel {
    A(u32),
    Aaaa(u128),
    Ptr(Seq<char>),
    Other,
}

impl View for RecordData {
    type V = RecordDataModel;

    open spec fn view(&self) -> RecordDataModel {
        match self {
            RecordData::A(n) => RecordDataModel::A(*n),
            RecordData::Aaaa(n) => RecordDataModel::Aaaa(*n),
            RecordData::Ptr(h) => RecordDataModel::Ptr(h@),
            RecordData::Other => RecordDataModel::Other,
        }
    }
}

/// One record of an announcement.
#[derive(Debug)]
pub struct Announced {
    pub name: String,
    pub ttl: u32,
    pub data: RecordData,
}

/// One record of an announcement, as numbers and text.
pub struct AnnouncedModel {
    pub name: Seq<char>,
    pub ttl: u32,
    pub data: RecordDataModel,
}

impl View for Announced {
    type V = AnnouncedModel;

    open spec fn view(&self) -> AnnouncedModel {
        AnnouncedModel { name: self.name@, ttl: self.ttl, data: self.data@ }
    }
}

/// The records, each as numbers and text.
pub open spec fn announced(v: Seq<Announced>) -> Seq<AnnouncedModel> {
    v.map_values(|a: Announced| a@)
}

/// The answers, and the additional records, of the message that `Message::from_vec` reads from a
/// packet; none where it cannot be read.
pub uninterp spec fn packet_sections(packet: Seq<u8>) -> Option<
    (Seq<AnnouncedModel>, Seq<AnnouncedModel>),
>;

/// `hickory_proto::op::Message::from_vec`: reads a message in wire format, here its answers and
/// its additional records.  They are a function of the bytes.
#[verifier::external_body]
fn read_sections(packet: &[u8]) -> (r: Option<(Vec<Announced>, Vec<Announced>)>)
    ensures
        (match r {
            Some((a, b)) => packet_sections(packet@) == Some((announced(a@), announced(b@))),
            None => packet_sections(packet@) is None,
        }),
{
    let m = hickory_proto::op::Message::from_vec(packet).ok()?;
    let plain = |r: &hickory_proto::rr::Record| Announced {
        name: r.name.to_string(),
        ttl: r.ttl,
        data: match &r.data {
            hickory_proto::rr::RData::A(a) => RecordData::A(a.0.to_bits()),
            hickory_proto::rr::RData::AAAA(a) => RecordData::Aaaa(a.0.to_bits()),
            hickory_proto::rr::RData::PTR(p) => RecordData::Ptr(p.0.to_string()),
            _ => RecordData::Other,
        },
    };
    Some((m.answers.iter().map(plain).collect(), m.additionals.iter().map(plain).collect()))
}

/// The records of a packet that may teach something: its answers, then its additional records.
pub open spec fn packet_records(packet: Seq<u8>) -> Option<Seq<AnnouncedModel>> {
    match packet_sections(packet) {
        Some(s) => Some(s.0 + s.1),
        None => None,
    }
}

/// The records of two sections, one after another.
fn joined_sections(answers: Vec<Announced>, additionals: Vec<Announced>) -> (r: Vec<Announced>)
    ensures
        announced(r@) == announced(answers@) + announced(additionals@),
{
    let mut r = answers;
    let mut rest = additionals;
    let ghost all = answers@ + additionals@;
    r.append(&mut rest);
    proof {
        assert(r@ =~= all);
        assert(announced(all) =~= announced(answers@) + announced(additionals@));
    }
    r
}

/// A host that is to be remembered.
#[derive(Debug)]
pub struct Learnt {
    pub ip: IpAddr,
    pub hostname: String,
    pub ttl: u32,
}

/// A host that is to be remembered, as an address, a text and a number.
pub struct LearntModel {
    pub ip: IpAddr,
    pub hostname: Seq<char>,
    pub ttl: u32,
}

impl View for Learnt {
    type V = LearntModel;

    open spec fn view(&self) -> LearntModel {
        LearntModel { ip: self.ip, hostname: self.hostname@, ttl: self.ttl }
    }
}

/// The hosts, each as an address, a text and a number.
pub open spec fn learnt(v: Seq<Learnt>) -> Seq<LearntModel> {
    v.map_values(|l: Learnt| l@)
}

/// The host name that is remembered of a domain name.
pub open spec fn host_of(name: Seq<char>) -> Option<Seq<char>> {
    sanitized(without_trailing(name, '.'))
}

/// What one record teaches.  A record without a lifetime says goodbye, and teaches nothing.
pub open spec fn lesson(a: AnnouncedModel) -> Option<LearntModel> {
    if a.ttl == 0 {
        None
    } else {
        match a.data {
            RecordDataModel::A(n) => match host_of(a.name) {
                Some(h) => Some(LearntModel { ip: IpAddr::V4(n), hostname: h, ttl: a.ttl }),
                None => None,
            },
            RecordDataModel::Aaaa(n) => match host_of(a.name) {
                Some(h) => Some(LearntModel { ip: IpAddr::V6(n), hostname: h, ttl: a.ttl }),
                None => None,
            },
            RecordDataModel::Ptr(target) => match (host_of(target), arpa_ip(a.name)) {
                (Some(h), Some(ip)) => Some(LearntModel { ip, hostname: h, ttl: a.ttl }),
                _ => None,
            },
            RecordDataModel::Other => None,
        }
    }
}

/// What the records teach, in order.
pub open spec fn lessons(s: Seq<AnnouncedModel>) -> Seq<LearntModel>
    decreases s.len(),
{
    if s.len() == 0 {
        Seq::<LearntModel>::empty()
    } else {
        match lesson(s.last()) {
            Some(l) => lessons(s.drop_last()).push(l),
            None => lessons(s.drop_last()),
        }
    }
}

/// The host name that is remembered of a domain name.
fn host_name(name: &str) -> (r: Option<String>)
    ensures
        crate::text::opt_text(r) == host_of(name@),
{
    let bare = trim_end_matches(name, '.');
    sanitize_hostname(bare.as_str())
}

/// What one record teaches.
fn learn_from(a: &Announced) -> (r: Option<Learnt>)
    ensures
        (match r {
            Some(l) => lesson(a@) == Some(l@),
            None => lesson(a@) is None,
        }),
{
    if a.ttl == 0 {
        return None;
    }
    match &a.data {
        RecordData::A(n) => match host_name(a.name.as_str()) {
            Some(hostname) => Some(Learnt { ip: IpAddr::V4(*n), hostname, ttl: a.ttl }),
            None => None,
        },
        RecordData::Aaaa(n) => match host_name(a.name.as_str()) {
            Some(hostname) => Some(Learnt { ip: IpAddr::V6(*n), hostname, ttl: a.ttl }),
            None => None,
        },
        RecordData::Ptr(target) => match host_name(target.as_str()) {
            Some(hostname) => match parse_arpa_to_ip(a.name.as_str()) {
                Some(ip) => Some(Learnt { ip, hostname, ttl: a.ttl }),
                None => None,
            },
            None => None,
        },
        RecordData::Other => None,
    }
}

/// What the records teach, in order.
pub fn hosts_learnt(records: &Vec<Announced>) -> (r: Vec<Learnt>)
    ensures
        learnt(r@) == lessons(announced(records@)),
{
    let mut r: Vec<Learnt> = Vec::new();
    let mut i: usize = 0;
    let ghost all = announced(records@);
    while i < records.len()
        invariant
            0 <= i <= records.len(),
            all == announced(records@),
            learnt(r@) == lessons(all.take(i as int)),
        decreases records.len() - i,
    {
        let ghost before = r@;
        proof {
            assert(all.take(i + 1).drop_last() =~= all.take(i as int));
            assert(all.take(i + 1).last() == records@[i as int]@);
        }
        match learn_from(&records[i]) {
            Some(l) => {
                r.push(l);
                proof {
                    assert(learnt(r@) =~= learnt(before).push(l@));
                }
            },
            None => {},
        }
        i += 1;
    }
    proof {
        assert(all.take(i as int) =~= all);
    }
    r
}

/// `after` is `m` with the hosts put in at `now`, one after another.
pub open spec fn hosts_put_in(
    m: Map<IpAddr, Host>,
    hosts: Seq<LearntModel>,
    now: u128,
    after: Map<IpAddr, Host>,
) -> bool
    decreases hosts.len(),
{
    if hosts.len() == 0 {
        after == m
    } else {
        exists|mid: Map<IpAddr, Host>|
            {
                &&& hosts_put_in(m, hosts.drop_last(), now, mid)
                &&& #[trigger] host_put_in(
                    mid,
                    hosts.last().ip,
                    (hosts.last().hostname, expiry(now, hosts.last().ttl) as u128),
                    after,
                )
            }
    }
}

/// Puts hosts in at `now`, one after another.
pub fn put_hosts(map: &mut MdnsMap, hosts: &Vec<Learnt>, now: u128)
    requires
        old(map).wf(),
        now <= MAX_SPAN_NANOS,
    ensures
        final(map).wf(),
        hosts_put_in(old(map)@, learnt(hosts@), now, final(map)@),
        final(map).origin() == old(map).origin(),
{
    let ghost all = learnt(hosts@);
    let ghost first = map@;
    let mut i: usize = 0;
    while i < hosts.len()
        invariant
            0 <= i <= hosts.len(),
            map.wf(),
            now <= MAX_SPAN_NANOS,
            all == learnt(hosts@),
            hosts_put_in(first, all.take(i as int), now, map@),
            map.origin() == old(map).origin(),
        decreases hosts.len() - i,
    {
        let ghost mid = map@;
        map.insert_at(hosts[i].ip, hosts[i].hostname.clone(), hosts[i].ttl, now);
        proof {
            assert(all.take(i + 1).drop_last() =~= all.take(i as int));
            assert(all.take(i + 1).last() == hosts@[i as int]@);
            let l = all.take(i + 1).last();
            assert(host_put_in(mid, l.ip, (l.hostname, expiry(now, l.ttl) as u128), map@));
        }
        i += 1;
    }
    proof {
        assert(all.take(i as int) =~= all);
    }
}

/// Remembers the hosts that a packet announces, and says whether there were any.  A packet
/// that is no message is passed over.
pub fn process_mdns_packet(data: &[u8], map: &mut MdnsMap) -> (r: bool)
    requires
        old(map).wf(),
    ensures
        final(map).wf(),
        (match packet_records(data@) {
            None => !r && final(map)@ == old(map)@,
            Some(s) => r == (lessons(s).len() > 0) && exists|now: u128| #[trigger]
                elapsed_nanos(old(map).origin(), now) && hosts_put_in(
                    old(map)@,
                    lessons(s),
                    now,
                    final(map)@,
                ),
        }),
        final(map).origin() == old(map).origin(),
{
    match read_sections(data) {
        None => false,
        Some((answers, additionals)) => {
            let records = joined_sections(answers, additionals);
            let hosts = hosts_learnt(&records);
            let now = map.clock();
            put_hosts(map, &hosts, now);
            proof {
                assert(learnt(hosts@).len() == hosts@.len());
            }
            hosts.len() > 0
        },
    }
}

/// A record without a lifetime teaches nothing.
pub proof fn law_goodbyes_teach_nothing(s: Seq<AnnouncedModel>)
    requires
        forall|i: int| 0 <= i < s.len() ==> (#[trigger] s[i]).ttl == 0,
    ensures
        lessons(s).len() == 0,
    decreases s.len(),
{
    if s.len() > 0 {
        assert(s[s.len() - 1].ttl == 0);
        let f = s.drop_last();
        assert forall|i: int| 0 <= i < f.len() implies (#[trigger] f[i]).ttl == 0 by {
            assert(s[i].ttl == 0);
        }
        law_goodbyes_teach_nothing(f);
    }
}

/// A host that was put in is found until it expires, and not afterwards.
pub proof fn law_hosts_are_found_until_they_expire(
    m: Map<IpAddr, Host>,
    ip: IpAddr,
    host: Host,
    after: Map<IpAddr, Host>,
    now: u128,
)
    requires
        host_put_in(m, ip, host, after),
    ensures
        live(after, now).dom().contains(ip) <==> host.1 > now,
        host.1 > now ==> live(after, now)[ip] == host,
{
    if m.dom().len() >= MAP_CAP && !m.dom().contains(ip) {
        let victim = choose|victim: IpAddr|
            #[trigger] first_to_expire(m, victim) && after == m.remove(victim).insert(ip, host);
        assert(after.dom().contains(ip) && after[ip] == host);
    }
}

// ── What the steps mean ─────────────────────────────────────────────────────

proof fn lemma_printable_is_filtered(s: Seq<char>)
    ensures
        printable(s) == s.filter(|c: char| 0x1f < c as u32 && c as u32 != 0x7f),
    decreases s.len(),
{
    reveal(Seq::filter);
    if s.len() > 0 {
        lemma_printable_is_filtered(s.drop_last());
    } else {
        assert(s.filter(|c: char| 0x1f < c as u32 && c as u32 != 0x7f) =~= s);
    }
}

/// What is remembered of a name are its characters but the control characters, in order, the
/// first 253 of them; nothing where none is left.
pub proof fn law_what_is_remembered_of_a_name(raw: &str, r: Option<String>)
    requires
        call_ensures(sanitize_hostname, (raw,), r),
    ensures
        ({
            let kept = raw@.filter(|c: char| 0x1f < c as u32 && c as u32 != 0x7f);
            &&& r is None <==> kept.len() == 0
            &&& r matches Some(s) ==> s@ == if kept.len() <= 253 {
                kept
            } else {
                kept.take(253)
            }
        }),
{
    lemma_printable_is_filtered(raw@);
}

/// The reverse name of an address is read as the address, with or without a dot at its end; names
/// are read alike whatever their case; and a name outside the two zones is no reverse name.
pub proof fn law_reverse_names_are_read(
    ip: IpAddr,
    own: &str,
    r: Option<IpAddr>,
    a: &str,
    b: &str,
    ra: Option<IpAddr>,
    rb: Option<IpAddr>,
)
    requires
        own@ == reverse_name(ip) || own@ == reverse_name(ip).push('.'),
        call_ensures(parse_arpa_to_ip, (own,), r),
        call_ensures(parse_arpa_to_ip, (a,), ra),
        call_ensures(parse_arpa_to_ip, (b,), rb),
        lower(a@) == lower(b@),
    ensures
        r == Some(ip),
        ra == rb,
        !has_suffix(lower(without_trailing(a@, '.')), ".in-addr.arpa"@) && !has_suffix(
            lower(without_trailing(a@, '.')),
            ".ip6.arpa"@,
        ) ==> ra is None,
        ra matches Some(IpAddr::V4(_)) ==> has_suffix(
            lower(without_trailing(a@, '.')),
            ".in-addr.arpa"@,
        ),
        ra matches Some(IpAddr::V6(_)) ==> has_suffix(
            lower(without_trailing(a@, '.')),
            ".ip6.arpa"@,
        ),
{
    law_reverse_names_are_read_back(ip);
    lemma_lower_trailing(a@, b@);
}

proof fn lemma_lower_trailing(a: Seq<char>, b: Seq<char>)
    requires
        lower(a) == lower(b),
    ensures
        lower(without_trailing(a, '.')) == lower(without_trailing(b, '.')),
    decreases a.len(),
{
    assert(lower(a).len() == a.len() && lower(b).len() == b.len());
    if a.len() > 0 {
        let i = a.len() - 1;
        assert(lower(a)[i] == lower_char(a[i]));
        assert(lower(b)[i] == lower_char(b[i]));
        assert(lower(a.drop_last()) =~= lower(a).drop_last());
        assert(lower(b.drop_last()) =~= lower(b).drop_last());
        if a.last() == '.' {
            lemma_lower_trailing(a.drop_last(), b.drop_last());
        }
    }
}

/// A host that was put in is found under its address until its lifetime is over, and then no
/// longer; the other hosts are found as before while there was room for it.
pub proof fn law_a_host_is_found_until_it_expires(
    m: &mut MdnsMap,
    ip: IpAddr,
    hostname: String,
    ttl_secs: u32,
    now: u128,
    g: &mut MdnsMap,
    later: u128,
    found: Option<String>,
    o: &mut MdnsMap,
    p: &mut MdnsMap,
    other: IpAddr,
    before: Option<String>,
    after: Option<String>,
)
    requires
        old(m).wf(),
        now <= MAX_SPAN_NANOS,
        call_ensures(MdnsMap::insert_at, (m, ip, hostname, ttl_secs, now), ()),
        *old(g) == *final(m),
        call_ensures(MdnsMap::get_at, (g, ip, later), found),
        *old(o) == *old(m),
        call_ensures(MdnsMap::get_at, (o, other, later), before),
        *old(p) == *final(m),
        call_ensures(MdnsMap::get_at, (p, other, later), after),
    ensures
        found is Some <==> later < now + ttl_secs * 1_000_000_000,
        found matches Some(h) ==> h@ == hostname@,
        other != ip && (old(m)@.dom().len() < 1024 || old(m)@.dom().contains(ip)) ==> (before is Some
            <==> after is Some) && (before is Some ==> before->0@ == after->0@),
        final(m)@.dom().len() <= 1024,
{
    let host: Host = (hostname@, expiry(now, ttl_secs) as u128);
    law_hosts_are_found_until_they_expire(old(m)@, ip, host, final(m)@, later);
    assert(final(m)@.dom().contains(ip) && final(m)@[ip] == host) by {
        let all = old(m)@;
        if all.dom().len() >= MAP_CAP && !all.dom().contains(ip) {
            let victim = choose|victim: IpAddr|
                #[trigger] first_to_expire(all, victim) && final(m)@ == all.remove(victim).insert(ip, host);
        }
    }
}

/// Where the map is full, a new host drives out one that expires no later than any other, and
/// only that one.
pub proof fn law_the_first_to_expire_makes_room(
    m: &mut MdnsMap,
    ip: IpAddr,
    hostname: String,
    ttl_secs: u32,
    now: u128,
    a: IpAddr,
    b: IpAddr,
)
    requires
        old(m).wf(),
        now <= MAX_SPAN_NANOS,
        call_ensures(MdnsMap::insert_at, (m, ip, hostname, ttl_secs, now), ()),
        old(m)@.dom().contains(a) && old(m)@.dom().contains(b),
        !final(m)@.dom().contains(a),
    ensures
        old(m)@.dom().len() >= 1024 && !old(m)@.dom().contains(ip),
        old(m)@[a].1 <= old(m)@[b].1,
        a != b ==> final(m)@.dom().contains(b) && (b != ip ==> final(m)@[b] == old(m)@[b]),
{
    let all = old(m)@;
    if all.dom().len() >= MAP_CAP && !all.dom().contains(ip) {
        let host: Host = (hostname@, expiry(now, ttl_secs) as u128);
        let victim = choose|victim: IpAddr|
            #[trigger] first_to_expire(all, victim) && final(m)@ == all.remove(victim).insert(ip, host);
        assert(victim == a);
    }
}

/// Looking a host up changes nothing but that an expired one is forgotten, and pruning forgets
/// just those: what is found afterwards is what would have been found before.
pub proof fn law_pruning_forgets_the_expired(
    m: &mut MdnsMap,
    now: u128,
    g: &mut MdnsMap,
    h: &mut MdnsMap,
    ip: IpAddr,
    before: Option<String>,
    after: Option<String>,
)
    requires
        old(m).wf(),
        call_ensures(MdnsMap::prune_expired_at, (m, now), ()),
        *old(g) == *old(m),
        call_ensures(MdnsMap::get_at, (g, ip, now), before),
        *old(h) == *final(m),
        call_ensures(MdnsMap::get_at, (h, ip, now), after),
    ensures
        before is Some <==> after is Some,
        before is Some ==> before->0@ == after->0@,
        before is Some <==> final(m)@.dom().contains(ip),
        before is Some <==> old(m)@.dom().contains(ip) && old(m)@[ip].1 > now,
        old(m)@.dom().contains(ip) && !final(g)@.dom().contains(ip) ==> before is None,
        before is Some ==> final(g)@ == old(g)@,
{
}

/// The hosts that are counted are those that pruning would leave.
pub proof fn law_the_unexpired_are_counted(m: &mut MdnsMap, now: u128, n: usize)
    requires
        old(m).wf(),
        call_ensures(MdnsMap::len_at, (old(m), now), n),
        call_ensures(MdnsMap::prune_expired_at, (m, now), ()),
    ensures
        n == final(m)@.dom().len(),
        forall|ip: IpAddr| #[trigger]
            final(m)@.dom().contains(ip) ==> old(m)@.dom().contains(ip) && old(m)@[ip].1 > now,
        forall|ip: IpAddr| #[trigger]
            old(m)@.dom().contains(ip) && old(m)@[ip].1 > now ==> final(m)@.dom().contains(ip),
{
    let l = live(old(m)@, now);
    assert forall|ip: IpAddr| #[trigger] old(m)@.dom().contains(ip) && old(m)@[ip].1 > now implies final(
        m)@.dom().contains(ip) by {
        assert(l.dom().contains(ip));
    }
}

/// What a further record teaches: an address record its address with the record's name, a
/// pointer the address of its name with the host it points at, each for the record's lifetime and
/// behind what the records before it taught; one without a lifetime, of another type or without a
/// usable name teaches nothing.
pub proof fn law_what_a_record_teaches(
    records: &Vec<Announced>,
    more: &Vec<Announced>,
    last: Announced,
    r: Vec<Learnt>,
    all: Vec<Learnt>,
    bare: &str,
    host: Option<String>,
    name: &str,
    ip: Option<IpAddr>,
)
    requires
        call_ensures(hosts_learnt, (records,), r),
        call_ensures(hosts_learnt, (more,), all),
        more@ == records@.push(last),
        bare@ == without_trailing(
            match last.data {
                RecordData::Ptr(target) => target@,
                _ => last.name@,
            },
            '.',
        ),
        call_ensures(sanitize_hostname, (bare,), host),
        name@ == last.name@,
        call_ensures(parse_arpa_to_ip, (name,), ip),
    ensures
        records@.len() == 0 ==> r@.len() == 0,
        last.ttl == 0 || last.data is Other || host is None || (last.data is Ptr && ip is None)
            ==> learnt(all@) == learnt(r@),
        last.ttl > 0 && host is Some ==> (last.data matches RecordData::A(n) ==> learnt(all@) == learnt(
            r@,
        ).push(LearntModel { ip: IpAddr::V4(n), hostname: host->0@, ttl: last.ttl })),
        last.ttl > 0 && host is Some ==> (last.data matches RecordData::Aaaa(n) ==> learnt(all@)
            == learnt(r@).push(
            LearntModel { ip: IpAddr::V6(n), hostname: host->0@, ttl: last.ttl },
        )),
        last.ttl > 0 && host is Some && ip is Some && last.data is Ptr ==> learnt(all@) == learnt(
            r@,
        ).push(LearntModel { ip: ip->0, hostname: host->0@, ttl: last.ttl }),
{
    assert(announced(more@).drop_last() =~= announced(records@));
    assert(announced(more@).last() == last@);
    assert(learnt(r@).len() == r@.len());
    match last.data {
        RecordData::A(n) => assert(last.data@ == RecordDataModel::A(n)),
        RecordData::Aaaa(n) => assert(last.data@ == RecordDataModel::Aaaa(n)),
        RecordData::Ptr(t) => assert(last.data@ == RecordDataModel::Ptr(t@)),
        RecordData::Other => {},
    }
}

/// Hosts that are put in together are put in one after another: the last one is found for as long
/// as it lives, and without any nothing changes.
pub proof fn law_hosts_are_put_in_one_after_another(
    m: &mut MdnsMap,
    hosts: &Vec<Learnt>,
    now: u128,
    g: &mut MdnsMap,
    later: u128,
    found: Option<String>,
)
    requires
        old(m).wf(),
        now <= MAX_SPAN_NANOS,
        call_ensures(put_hosts, (m, hosts, now), ()),
        *old(g) == *final(m),
        hosts@.len() > 0 ==> call_ensures(MdnsMap::get_at, (g, hosts@.last().ip, later), found),
    ensures
        hosts@.len() == 0 ==> final(m)@ == old(m)@,
        hosts@.len() > 0 ==> (found is Some <==> later < now + hosts@.last().ttl * 1_000_000_000),
        hosts@.len() > 0 && found is Some ==> found->0@ == hosts@.last().hostname@,
{
    let all = learnt(hosts@);
    assert(all.len() == hosts@.len());
    if hosts@.len() > 0 {
        let l = all.last();
        assert(l == hosts@.last()@);
        let host: Host = (l.hostname, expiry(now, l.ttl) as u128);
        let mid = choose|mid: Map<IpAddr, Host>|
            {
                &&& hosts_put_in(old(m)@, all.drop_last(), now, mid)
                &&& #[trigger] host_put_in(mid, l.ip, host, final(m)@)
            };
        assert(host_put_in(mid, l.ip, host, final(m)@));
        if mid.dom().len() >= MAP_CAP && !mid.dom().contains(l.ip) {
            let victim = choose|victim: IpAddr|
                #[trigger] first_to_expire(mid, victim) && final(m)@ == mid.remove(victim).insert(
                    l.ip,
                    host,
                );
        }
        assert(final(m)@.dom().contains(l.ip) && final(m)@[l.ip] == host);
    }
}

/// A packet from which nothing is learnt leaves the map as it was, and is told apart from one
/// that taught something.
pub proof fn law_useless_packets_change_nothing(data: &[u8], m: &mut MdnsMap, r: bool)
    requires
        old(m).wf(),
        call_ensures(process_mdns_packet, (data, m), r),
    ensures
        !r ==> final(m)@ == old(m)@,
        packet_sections(data@) is None ==> !r,
        packet_sections(data@) matches Some(s) ==> (r <==> lessons(s.0 + s.1).len() > 0),
{
    match packet_records(data@) {
        None => {},
        Some(s) => {
            let now = choose|now: u128| #[trigger]
                elapsed_nanos(old(m).origin(), now) && hosts_put_in(old(m)@, lessons(s), now, final(m)@);
            assert(hosts_put_in(old(m)@, lessons(s), now, final(m)@));
        },
    }
}

/// Just those entries are left that have not expired at `now`, as they were.
pub open spec fn only_unexpired(
    before: Map<IpAddr, Host>,
    after: Map<IpAddr, Host>,
    now: u128,
) -> bool {
    &&& forall|ip: IpAddr| #[trigger]
        after.dom().contains(ip) <==> before.dom().contains(ip) && before[ip].1 > now
    &&& forall|ip: IpAddr| #[trigger] after.dom().contains(ip) ==> after[ip] == before[ip]
}

/// By the clock just those entries are dropped that it shows as expired.
pub proof fn law_the_clock_expires_entries(m: &mut MdnsMap)
    requires
        old(m).wf(),
        call_ensures(MdnsMap::prune_expired, (m,), ()),
    ensures
        exists|now: u128| #[trigger]
            elapsed_nanos(old(m).origin(), now) && only_unexpired(old(m)@, final(m)@, now),
{
    let now = choose|now: u128| #[trigger]
        elapsed_nanos(old(m).origin(), now) && final(m)@ == live(old(m)@, now);
    let l = live(old(m)@, now);
    assert forall|ip: IpAddr| #[trigger]
        final(m)@.dom().contains(ip) <==> old(m)@.dom().contains(ip) && old(m)@[ip].1 > now by {
        assert(l.dom().contains(ip) == final(m)@.dom().contains(ip));
    }
    assert(only_unexpired(old(m)@, final(m)@, now));
}

/// A reverse name has a label for each byte, or for each half of a byte, of its address, the
/// lowest first, and nothing else in front of its zone.
pub proof fn law_what_reverse_names_look_like(a: &str, r: Option<IpAddr>, i: int)
    requires
        call_ensures(parse_arpa_to_ip, (a,), r),
    ensures
        r matches Some(IpAddr::V4(n)) ==> {
            let name = lower(without_trailing(a@, '.'));
            let l = pieces(name.take(name.len() - 13), '.');
            &&& l.len() == 4
            &&& unsigned_value(l[0], 255) == Some(n as nat % 256)
            &&& unsigned_value(l[1], 255) == Some(n as nat / 0x100 % 256)
            &&& unsigned_value(l[2], 255) == Some(n as nat / 0x1_0000 % 256)
            &&& unsigned_value(l[3], 255) == Some(n as nat / 0x100_0000)
        },
        r matches Some(IpAddr::V6(n)) ==> {
            let name = lower(without_trailing(a@, '.'));
            let l = pieces(name.take(name.len() - 9), '.');
            &&& l.len() == 32
            &&& 0 <= i < 32 ==> l[i].len() == 1 && hex_value(l[i][0]) is Some
        },
{
    reveal_strlit(".in-addr.arpa");
    reveal_strlit(".ip6.arpa");
    assert(".in-addr.arpa"@.len() == 13 && ".ip6.arpa"@.len() == 9);
    let name = lower(without_trailing(a@, '.'));
    if r matches Some(IpAddr::V6(n)) {
        let l = pieces(name.take(name.len() - 9), '.');
        if 0 <= i < 32 {
            lemma_each_is_a_nibble(l, i);
        }
    }
}

proof fn lemma_each_is_a_nibble(labels: Seq<Seq<char>>, i: int)
    requires
        nibbles_value(labels) is Some,
        0 <= i < labels.len(),
    ensures
        nibble(labels[i]) is Some,
    decreases labels.len(),
{
    if i > 0 {
        lemma_each_is_a_nibble(labels.skip(1), i - 1);
        assert(labels.skip(1)[i - 1] == labels[i]);
    }
}

}
