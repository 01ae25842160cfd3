//! Internet addresses as numbers, and the text they are written in.
use vstd::prelude::*;
use vstd::string::*;
use crate::text::{chars_of, decimal_of, split_on, string_of};
use crate::text::{decimal, digit_char, digits_value, is_digit, joined, lemma_pieces_of_joined, pieces, texts};

verus! {

/// An IPv4 or IPv6 address, held as the number its bytes spell.
#[derive(Debug, Clone, Copy, PartialEq, Eq, Structural)]
pub enum IpAddr {
    V4(u32),
    V6(u128),
}

/// An address and a port.
#[derive(Debug, Clone, Copy, PartialEq, Eq, Structural)]
pub struct SocketAddr {
    pub ip: IpAddr,
    pub port: u16,
}

/// The number of `127.0.0.1`.
pub const LOCALHOST_V4_BITS: u32 = 0x7f00_0001;

/// The number of `::1`.
pub const LOCALHOST_V6_BITS: u128 = 1;

/// The number whose digits in base `b` are `d`, most significant first.
pub open spec fn from_digits(d: Seq<nat>, b: nat) -> nat
    decreases d.len(),
{
    if d.len() == 0 {
        0
    } else {
        from_digits(d.drop_last(), b) * b + d.last()
    }
}

/// The last `k` digits of `n` in base `b`, most significant first.
pub open spec fn to_digits(n: nat, b: nat, k: nat) -> Seq<nat>
    decreases k,
{
    if k == 0 {
        Seq::<nat>::empty()
    } else {
        to_digits(n / b, b, (k - 1) as nat).push(n % b)
    }
}

/// The address `a.b.c.d`.
pub open spec fn v4_bits(a: nat, b: nat, c: nat, d: nat) -> nat {
    ((a * 256 + b) * 256 + c) * 256 + d
}

impl IpAddr {
    /// The IPv4 address `a.b.c.d`.
    pub fn v4(a: u8, b: u8, c: u8, d: u8) -> (r: IpAddr)
        ensures
            r is V4,
            r->V4_0 == v4_bits(a as nat, b as nat, c as nat, d as nat),
    {
        IpAddr::V4(((a as u32 * 256 + b as u32) * 256 + c as u32) * 256 + d as u32)
    }

    /// An address of the loopback network: `127.0.0.0/8` or `::1`.
    pub open spec fn loopback(self) -> bool {
        match self {
            IpAddr::V4(n) => n / 0x100_0000 == 127,
            IpAddr::V6(n) => n == 1,
        }
    }

    /// The address whose bits are all zero.
    pub open spec fn unspecified(self) -> bool {
        match self {
            IpAddr::V4(n) => n == 0,
            IpAddr::V6(n) => n == 0,
        }
    }

    /// Whether this is an address of the loopback network.
    pub fn is_loopback(&self) -> (r: bool)
        ensures
            r == self.loopback(),
    {
        match self {
            IpAddr::V4(n) => *n / 0x100_0000 == 127,
            IpAddr::V6(n) => *n == 1,
        }
    }

    /// Whether this is the address whose bits are all zero.
    pub fn is_unspecified(&self) -> (r: bool)
        ensures
            r == self.unspecified(),
    {
        match self {
            IpAddr::V4(n) => *n == 0,
            IpAddr::V6(n) => *n == 0,
        }
    }
}

// ── Reading ─────────────────────────────────────────────────────────────────

/// The value of a piece of a dotted IPv4 address: one to three decimal digits, no
/// leading zero, at most 255.
pub open spec fn octet_value(p: Seq<char>) -> Option<nat> {
    if 1 <= p.len() <= 3 && (forall|i: int| 0 <= i < p.len() ==> is_digit(#[trigger] p[i])) && (p.len()
        > 1 ==> p[0] != '0') && digits_value(p) <= 255 {
        Some(digits_value(p))
    } else {
        None
    }
}

/// The number that a dotted IPv4 address spells: four pieces with a dot between each
/// two.
pub open spec fn v4_value(s: Seq<char>) -> Option<nat> {
    let p = pieces(s, '.');
    if p.len() == 4 && octet_value(p[0]) is Some && octet_value(p[1]) is Some && octet_value(p[2])
        is Some && octet_value(p[3]) is Some {
        Some(
            v4_bits(
                octet_value(p[0])->0,
                octet_value(p[1])->0,
                octet_value(p[2])->0,
                octet_value(p[3])->0,
            ),
        )
    } else {
        None
    }
}

/// The value of a hexadecimal digit.
pub open spec fn hex_value(c: char) -> Option<nat> {
    if '0' <= c <= '9' {
        Some((c as u32 - '0' as u32) as nat)
    } else if 'a' <= c <= 'f' {
        Some((c as u32 - 'a' as u32 + 10) as nat)
    } else if 'A' <= c <= 'F' {
        Some((c as u32 - 'A' as u32 + 10) as nat)
    } else {
        None
    }
}

/// The number that a run of hexadecimal digits spells.
pub open spec fn hex_run(p: Seq<char>) -> Option<nat>
    decreases p.len(),
{
    if p.len() == 0 {
        Some(0)
    } else if hex_run(p.drop_last()) is Some && hex_value(p.last()) is Some {
        Some(hex_run(p.drop_last())->0 * 16 + hex_value(p.last())->0)
    } else {
        None
    }
}

/// The value of one group of an IPv6 address: one to four hexadecimal digits.
pub open spec fn group_value(p: Seq<char>) -> Option<nat> {
    if 1 <= p.len() <= 4 {
        hex_run(p)
    } else {
        None
    }
}

/// The groups that the pieces `p` spell, each of them one group.
pub open spec fn plain_groups(p: Seq<Seq<char>>) -> Option<Seq<nat>>
    decreases p.len(),
{
    if p.len() == 0 {
        Some(Seq::<nat>::empty())
    } else if plain_groups(p.drop_last()) is Some && group_value(p.last()) is Some {
        Some(plain_groups(p.drop_last())->0.push(group_value(p.last())->0))
    } else {
        None
    }
}

/// The groups that a text spells, a colon between each two.  Where `dotted`, a dotted
/// IPv4 address may stand at the end, in place of two groups.
pub open spec fn groups_value(s: Seq<char>, dotted: bool) -> Option<Seq<nat>> {
    let p = pieces(s, ':');
    if s.len() == 0 {
        Some(Seq::<nat>::empty())
    } else if plain_groups(p) is Some {
        plain_groups(p)
    } else if dotted && plain_groups(p.drop_last()) is Some && v4_value(p.last()) is Some {
        let n = v4_value(p.last())->0;
        Some(plain_groups(p.drop_last())->0.push(n / 65536).push(n % 65536))
    } else {
        None
    }
}

/// The position of the first pair of colons in `s` from `i` on, or the length of `s`.
pub open spec fn double_colon(s: Seq<char>, i: int) -> int
    decreases s.len() - i,
{
    if i + 1 >= s.len() {
        s.len() as int
    } else if s[i] == ':' && s[i + 1] == ':' {
        i
    } else {
        double_colon(s, i + 1)
    }
}

/// `k` groups of zeros.
pub open spec fn zero_groups(k: nat) -> Seq<nat> {
    Seq::new(k, |i: int| 0nat)
}

/// The eight groups that an IPv6 address spells: all of them, or those before and
/// after a pair of colons that stands for at least one group of zeros.
pub open spec fn v6_groups(s: Seq<char>) -> Option<Seq<nat>> {
    let at = double_colon(s, 0);
    if at == s.len() {
        if groups_value(s, true) is Some && groups_value(s, true)->0.len() == 8 {
            groups_value(s, true)
        } else {
            None
        }
    } else {
        let head = groups_value(s.take(at), false);
        let tail = groups_value(s.skip(at + 2), true);
        if head is Some && tail is Some && head->0.len() + tail->0.len() <= 7 {
            Some(head->0 + zero_groups((8 - head->0.len() - tail->0.len()) as nat) + tail->0)
        } else {
            None
        }
    }
}

/// The address that `s` spells.
pub open spec fn ip_value(s: Seq<char>) -> Option<IpAddr> {
    if v4_value(s) is Some {
        Some(IpAddr::V4(v4_value(s)->0 as u32))
    } else if v6_groups(s) is Some {
        Some(IpAddr::V6(from_digits(v6_groups(s)->0, 65536) as u128))
    } else {
        None
    }
}

/// The value of a piece of a dotted IPv4 address.
fn parse_octet(s: &str) -> (r: Option<u8>)
    ensures
        (match r {
            Some(n) => octet_value(s@) == Some(n as nat),
            None => octet_value(s@) is None,
        }),
{
    let v = chars_of(s);
    if v.len() < 1 || v.len() > 3 {
        return None;
    }
    if v.len() > 1 && v[0] == '0' {
        return None;
    }
    let mut n: u32 = 0;
    let mut i: usize = 0;
    proof {
        assert(s@.take(0) =~= Seq::<char>::empty());
    }
    while i < v.len()
        invariant
            0 <= i <= v.len() <= 3,
            v@ == s@,
            n == digits_value(s@.take(i as int)),
            i == 0 ==> n == 0,
            i == 1 ==> n <= 9,
            i == 2 ==> n <= 99,
            i == 3 ==> n <= 999,
            forall|j: int| 0 <= j < i ==> is_digit(#[trigger] s@[j]),
        decreases v.len() - i,
    {
        let c = v[i];
        if !('0' <= c && c <= '9') {
            proof {
                assert(!is_digit(s@[i as int]));
            }
            return None;
        }
        proof {
            assert(s@.take(i + 1).drop_last() =~= s@.take(i as int));
            assert(s@.take(i + 1).last() == c);
        }
        n = n * 10 + (c as u32 - '0' as u32);
        i += 1;
    }
    proof {
        assert(s@.take(i as int) =~= s@);
    }
    if n <= 255 {
        Some(n as u8)
    } else {
        None
    }
}

/// The number that a dotted IPv4 address spells.
pub fn parse_v4(s: &str) -> (r: Option<u32>)
    ensures
        (match r {
            Some(n) => v4_value(s@) == Some(n as nat),
            None => v4_value(s@) is None,
        }),
{
    let p = split_on(s, '.');
    if p.len() != 4 {
        return None;
    }
    proof {
        assert(texts(p@)[0] == p@[0]@);
        assert(texts(p@)[1] == p@[1]@);
        assert(texts(p@)[2] == p@[2]@);
        assert(texts(p@)[3] == p@[3]@);
    }
    match (
        parse_octet(p[0].as_str()),
        parse_octet(p[1].as_str()),
        parse_octet(p[2].as_str()),
        parse_octet(p[3].as_str()),
    ) {
        (Some(a), Some(b), Some(c), Some(d)) => Some(
            ((a as u32 * 256 + b as u32) * 256 + c as u32) * 256 + d as u32,
        ),
        _ => None,
    }
}

/// The value of a hexadecimal digit.
pub(crate) fn hex_digit(c: char) -> (r: Option<u16>)
    ensures
        (match r {
            Some(n) => hex_value(c) == Some(n as nat) && n < 16,
            None => hex_value(c) is None,
        }),
{
    if '0' <= c && c <= '9' {
        Some((c as u32 - '0' as u32) as u16)
    } else if 'a' <= c && c <= 'f' {
        Some((c as u32 - 'a' as u32 + 10) as u16)
    } else if 'A' <= c && c <= 'F' {
        Some((c as u32 - 'A' as u32 + 10) as u16)
    } else {
        None
    }
}

proof fn lemma_hex_run_stuck(s: Seq<char>, i: int)
    requires
        0 <= i <= s.len(),
        hex_run(s.take(i)) is None,
    ensures
        hex_run(s) is None,
    decreases s.len() - i,
{
    if i < s.len() {
        assert(s.take(i + 1).drop_last() =~= s.take(i));
        lemma_hex_run_stuck(s, i + 1);
    } else {
        assert(s.take(i) =~= s);
    }
}

/// The value of one group of an IPv6 address.
fn parse_group(s: &str) -> (r: Option<u16>)
    ensures
        (match r {
            Some(n) => group_value(s@) == Some(n as nat),
            None => group_value(s@) is None,
        }),
{
    let v = chars_of(s);
    if v.len() < 1 || v.len() > 4 {
        return None;
    }
    let mut n: u16 = 0;
    let mut i: usize = 0;
    proof {
        assert(s@.take(0) =~= Seq::<char>::empty());
    }
    while i < v.len()
        invariant
            0 <= i <= v.len() <= 4,
            v@ == s@,
            hex_run(s@.take(i as int)) == Some(n as nat),
            i == 0 ==> n == 0,
            i == 1 ==> n < 0x10,
            i == 2 ==> n < 0x100,
            i == 3 ==> n < 0x1000,
        decreases v.len() - i,
    {
        let c = v[i];
        proof {
            assert(s@.take(i + 1).drop_last() =~= s@.take(i as int));
            assert(s@.take(i + 1).last() == c);
        }
        match hex_digit(c) {
            None => {
                proof {
                    lemma_hex_run_stuck(s@, i + 1);
                }
                return None;
            },
            Some(d) => {
                n = n * 16 + d;
            },
        }
        i += 1;
    }
    proof {
        assert(s@.take(i as int) =~= s@);
    }
    Some(n)
}

/// The numbers as unbounded ones.
pub open spec fn nats(v: Seq<u16>) -> Seq<nat> {
    v.map_values(|n: u16| n as nat)
}

proof fn lemma_plain_groups_stuck(p: Seq<Seq<char>>, i: int)
    requires
        0 <= i <= p.len(),
        plain_groups(p.take(i)) is None,
    ensures
        plain_groups(p) is None,
    decreases p.len() - i,
{
    if i < p.len() {
        assert(p.take(i + 1).drop_last() =~= p.take(i));
        lemma_plain_groups_stuck(p, i + 1);
    } else {
        assert(p.take(i) =~= p);
    }
}

/// The groups that the first `n` pieces spell.
fn parse_plain_groups(p: &Vec<String>, n: usize) -> (r: Option<Vec<u16>>)
    requires
        n <= p.len(),
    ensures
        (match r {
            Some(g) => plain_groups(texts(p@).take(n as int)) == Some(nats(g@)) && g@.len() == n,
            None => plain_groups(texts(p@).take(n as int)) is None,
        }),
{
    let mut g: Vec<u16> = Vec::new();
    let mut i: usize = 0;
    let ghost ps = texts(p@).take(n as int);
    proof {
        assert(nats(g@) =~= Seq::<nat>::empty());
    }
    while i < n
        invariant
            0 <= i <= n <= p.len(),
            ps == texts(p@).take(n as int),
            plain_groups(ps.take(i as int)) == Some(nats(g@)),
            g@.len() == i,
        decreases n - i,
    {
        proof {
            assert(ps.take(i + 1).drop_last() =~= ps.take(i as int));
            assert(ps.take(i + 1).last() == p@[i as int]@);
        }
        match parse_group(p[i].as_str()) {
            None => {
                proof {
                    lemma_plain_groups_stuck(ps, i + 1);
                }
                return None;
            },
            Some(x) => {
                let ghost before = g@;
                g.push(x);
                proof {
                    assert(nats(g@) =~= nats(before).push(x as nat));
                }
            },
        }
        i += 1;
    }
    proof {
        assert(ps.take(i as int) =~= ps);
    }
    Some(g)
}

/// The groups that a text spells.
fn parse_groups(s: &str, dotted: bool) -> (r: Option<Vec<u16>>)
    ensures
        (match r {
            Some(g) => groups_value(s@, dotted) == Some(nats(g@)),
            None => groups_value(s@, dotted) is None,
        }),
{
    if s.is_empty() {
        let g: Vec<u16> = Vec::new();
        proof {
            assert(nats(g@) =~= Seq::<nat>::empty());
        }
        return Some(g);
    }
    let p = split_on(s, ':');
    proof {
        assert(texts(p@).take(p@.len() as int) =~= texts(p@));
        assert(texts(p@).take(p@.len() - 1) =~= texts(p@).drop_last());
        assert(texts(p@).last() == p@.last()@);
    }
    match parse_plain_groups(&p, p.len()) {
        Some(g) => Some(g),
        None => {
            if !dotted {
                return None;
            }
            match (parse_plain_groups(&p, p.len() - 1), parse_v4(p[p.len() - 1].as_str())) {
                (Some(mut g), Some(n)) => {
                    let ghost before = g@;
                    let hi: u16 = (n / 65536) as u16;
                    let lo: u16 = (n % 65536) as u16;
                    g.push(hi);
                    g.push(lo);
                    proof {
                        assert(nats(g@) =~= nats(before).push(hi as nat).push(lo as nat));
                    }
                    Some(g)
                },
                _ => None,
            }
        },
    }
}

/// The position of the first pair of colons, or the length.
fn find_double_colon(v: &Vec<char>) -> (r: usize)
    ensures
        r == double_colon(v@, 0),
        r <= v@.len(),
        r < v@.len() ==> r + 2 <= v@.len(),
{
    let mut i: usize = 0;
    while i < v.len()
        invariant
            0 <= i <= v.len(),
            double_colon(v@, 0) == double_colon(v@, i as int),
        decreases v.len() - i,
    {
        if v.len() - i < 2 {
            return v.len();
        }
        if v[i] == ':' && v[i + 1] == ':' {
            return i;
        }
        i += 1;
    }
    v.len()
}

proof fn lemma_from_digits_bound(d: Seq<nat>, b: nat, limit: nat)
    requires
        b > 0,
        forall|i: int| 0 <= i < d.len() ==> #[trigger] d[i] < b,
        limit == vstd::arithmetic::power::pow(b as int, d.len()),
    ensures
        from_digits(d, b) < limit,
    decreases d.len(),
{
    reveal(vstd::arithmetic::power::pow);
    if d.len() > 0 {
        let l = vstd::arithmetic::power::pow(b as int, (d.len() - 1) as nat);
        vstd::arithmetic::power::lemma_pow_positive(b as int, (d.len() - 1) as nat);
        lemma_from_digits_bound(d.drop_last(), b, l as nat);
        let x = from_digits(d.drop_last(), b);
        assert(x * b + d.last() < l * b) by (nonlinear_arith)
            requires
                x + 1 <= l,
                d.last() < b,
        ;
        assert(limit == b * l);
        assert(b * l == l * b) by (nonlinear_arith);
    }
}

/// The number that eight groups spell.
fn number_of_groups(g: &Vec<u16>) -> (r: u128)
    requires
        g@.len() == 8,
    ensures
        r == from_digits(nats(g@), 65536),
{
    let mut n: u128 = 0;
    let mut i: usize = 0;
    let ghost d = nats(g@);
    while i < 8
        invariant
            0 <= i <= 8,
            g@.len() == 8,
            d == nats(g@),
            n == from_digits(d.take(i as int), 65536),
        decreases 8 - i,
    {
        proof {
            let t = d.take(i + 1);
            assert(t.drop_last() =~= d.take(i as int));
            assert(t.last() == g@[i as int] as nat);
            let l = vstd::arithmetic::power::pow(65536, t.len());
            vstd::arithmetic::power::lemma_pow_positive(65536, t.len());
            lemma_from_digits_bound(t, 65536, l as nat);
            assert(l <= 0x1_0000_0000_0000_0000_0000_0000_0000_0000) by {
                reveal_with_fuel(vstd::arithmetic::power::pow, 9);
            }
        }
        n = n * 65536 + g[i] as u128;
        i += 1;
    }
    proof {
        assert(d.take(8) =~= d);
    }
    n
}

/// The eight groups that an IPv6 address spells.
fn parse_v6_groups(s: &str) -> (r: Option<Vec<u16>>)
    ensures
        (match r {
            Some(g) => v6_groups(s@) == Some(nats(g@)) && g@.len() == 8,
            None => v6_groups(s@) is None,
        }),
{
    let v = chars_of(s);
    let at = find_double_colon(&v);
    if at == v.len() {
        match parse_groups(s, true) {
            Some(g) => {
                if g.len() == 8 {
                    Some(g)
                } else {
                    None
                }
            },
            None => None,
        }
    } else {
        let head_text = string_of(&v, 0, at);
        let tail_text = string_of(&v, at + 2, v.len());
        proof {
            assert(head_text@ =~= s@.take(at as int));
            assert(tail_text@ =~= s@.skip(at + 2));
        }
        match (parse_groups(head_text.as_str(), false), parse_groups(tail_text.as_str(), true)) {
            (Some(head), Some(tail)) => {
                if head.len() > 7 || tail.len() > 7 - head.len() {
                    return None;
                }
                let ghost h = nats(head@);
                let ghost t = nats(tail@);
                let zeros: usize = 8 - head.len() - tail.len();
                let mut g = head;
                let mut i: usize = 0;
                proof {
                    assert(h + zero_groups(0) =~= nats(g@));
                }
                while i < zeros
                    invariant
                        0 <= i <= zeros,
                        nats(g@) == h + zero_groups(i as nat),
                    decreases zeros - i,
                {
                    let ghost before = g@;
                    g.push(0);
                    proof {
                        assert(nats(g@) =~= nats(before).push(0));
                        assert(zero_groups((i + 1) as nat) =~= zero_groups(i as nat).push(0));
                        assert(nats(g@) =~= h + zero_groups((i + 1) as nat));
                    }
                    i += 1;
                }
                let mut j: usize = 0;
                proof {
                    assert(nats(g@) + t.take(0) =~= nats(g@));
                }
                while j < tail.len()
                    invariant
                        0 <= j <= tail.len(),
                        t == nats(tail@),
                        nats(g@) == h + zero_groups(zeros as nat) + t.take(j as int),
                    decreases tail.len() - j,
                {
                    let ghost before = g@;
                    g.push(tail[j]);
                    proof {
                        assert(nats(g@) =~= nats(before).push(tail@[j as int] as nat));
                        assert(t.take(j + 1) =~= t.take(j as int).push(t[j as int]));
                        assert(nats(g@) =~= h + zero_groups(zeros as nat) + t.take(j + 1));
                    }
                    j += 1;
                }
                proof {
                    assert(t.take(j as int) =~= t);
                    assert(nats(g@).len() == 8);
                }
                Some(g)
            },
            _ => None,
        }
    }
}

/// The address that `s` spells: four decimal octets with dots, or an IPv6 address in
/// hexadecimal groups.
pub fn parse_ip(s: &str) -> (r: Option<IpAddr>)
    ensures
        r == ip_value(s@),
{
    match parse_v4(s) {
        Some(n) => Some(IpAddr::V4(n)),
        None => match parse_v6_groups(s) {
            Some(g) => Some(IpAddr::V6(number_of_groups(&g))),
            None => None,
        },
    }
}

// ── Writing ─────────────────────────────────────────────────────────────────

/// The dotted form of an IPv4 address.
pub open spec fn v4_text(n: nat) -> Seq<char> {
    let d = to_digits(n, 256, 4);
    decimal(d[0]) + seq!['.'] + decimal(d[1]) + seq!['.'] + decimal(d[2]) + seq!['.'] + decimal(d[3])
}

/// The lower-case hexadecimal digit `d`.
pub open spec fn hex_char(d: nat) -> char {
    if d < 10 {
        ((0x30 + d) as u32) as char
    } else {
        ((0x57 + d) as u32) as char
    }
}

/// `n` in lower-case hexadecimal, without leading zeros.
pub open spec fn hex(n: nat) -> Seq<char>
    decreases n,
{
    if n < 16 {
        seq![hex_char(n)]
    } else {
        hex(n / 16).push(hex_char(n % 16))
    }
}

/// Groups in hexadecimal, a colon between each two.
pub open spec fn groups_text(g: Seq<nat>) -> Seq<char>
    decreases g.len(),
{
    if g.len() == 0 {
        Seq::<char>::empty()
    } else if g.len() == 1 {
        hex(g[0])
    } else {
        groups_text(g.drop_last()).push(':') + hex(g.last())
    }
}

/// How many groups of zeros stand in `g` from position `i` on without a break.
pub open spec fn zeros_at(g: Seq<nat>, i: int) -> nat
    decreases g.len() - i,
{
    if 0 <= i < g.len() && g[i] == 0 {
        1 + zeros_at(g, i + 1)
    } else {
        0
    }
}

/// The start and the length of the longest run of zeros among those that start before
/// position `n`, the first one where several are as long.
pub open spec fn longest_zeros(g: Seq<nat>, n: nat) -> (int, nat)
    decreases n,
{
    if n == 0 {
        (0, 0)
    } else {
        let best = longest_zeros(g, (n - 1) as nat);
        let here = zeros_at(g, n - 1);
        if here > best.1 {
            (n - 1, here)
        } else {
            best
        }
    }
}

/// The text of an IPv6 address: an IPv4-mapped one shows its dotted form; in another
/// the longest run of two or more groups of zeros becomes a pair of colons.
pub open spec fn v6_text(n: nat) -> Seq<char> {
    let g = to_digits(n, 65536, 8);
    if n / 0x1_0000_0000 == 0xffff {
        seq![':', ':', 'f', 'f', 'f', 'f', ':'] + v4_text(n % 0x1_0000_0000)
    } else {
        let run = longest_zeros(g, 8);
        if run.1 >= 2 {
            groups_text(g.take(run.0)) + seq![':', ':'] + groups_text(g.skip(run.0 + run.1))
        } else {
            groups_text(g)
        }
    }
}

/// The text of an address.
pub open spec fn ip_text(ip: IpAddr) -> Seq<char> {
    match ip {
        IpAddr::V4(n) => v4_text(n as nat),
        IpAddr::V6(n) => v6_text(n as nat),
    }
}

/// The text of an address and a port: an IPv6 address stands in square brackets.
pub open spec fn socket_text(a: SocketAddr) -> Seq<char> {
    match a.ip {
        IpAddr::V4(_) => ip_text(a.ip) + seq![':'] + decimal(a.port as nat),
        IpAddr::V6(_) => seq!['['] + ip_text(a.ip) + seq![']', ':'] + decimal(a.port as nat),
    }
}

/// The dotted form of an IPv4 address.
fn v4_string(n: u32) -> (r: String)
    ensures
        r@ == v4_text(n as nat),
{
    let d3: u32 = n % 256;
    let d2: u32 = n / 256 % 256;
    let d1: u32 = n / 256 / 256 % 256;
    let d0: u32 = n / 256 / 256 / 256;
    proof {
        reveal_with_fuel(to_digits, 5);
        let d = to_digits(n as nat, 256, 4);
        assert(d[3] == d3);
        assert(d[2] == d2);
        assert(d[1] == d1);
        assert(d[0] == d0);
    }
    let mut r = decimal_of(d0 as u64);
    r.push('.');
    let s1 = decimal_of(d1 as u64);
    r.append(s1.as_str());
    r.push('.');
    let s2 = decimal_of(d2 as u64);
    r.append(s2.as_str());
    r.push('.');
    let s3 = decimal_of(d3 as u64);
    r.append(s3.as_str());
    proof {
        assert(r@ =~= v4_text(n as nat));
    }
    r
}

/// The lower-case hexadecimal digit `d`.
pub fn hex_digit_char(d: u8) -> (r: char)
    requires
        d < 16,
    ensures
        r == hex_char(d as nat),
{
    match d {
        0 => '0',
        1 => '1',
        2 => '2',
        3 => '3',
        4 => '4',
        5 => '5',
        6 => '6',
        7 => '7',
        8 => '8',
        9 => '9',
        10 => 'a',
        11 => 'b',
        12 => 'c',
        13 => 'd',
        14 => 'e',
        _ => 'f',
    }
}

/// `n` in lower-case hexadecimal.
fn hex_string(n: u16) -> (r: String)
    ensures
        r@ == hex(n as nat),
    decreases n,
{
    if n < 16 {
        let mut r = String::new();
        r.push(hex_digit_char(n as u8));
        proof {
            assert(r@ =~= seq![hex_char(n as nat)]);
        }
        r
    } else {
        let mut r = hex_string(n / 16);
        r.push(hex_digit_char((n % 16) as u8));
        r
    }
}

/// The groups `g[from..to]` in hexadecimal.
fn groups_string(g: &Vec<u16>, from: usize, to: usize) -> (r: String)
    requires
        from <= to <= g.len(),
    ensures
        r@ == groups_text(nats(g@).subrange(from as int, to as int)),
{
    let mut r = String::new();
    let mut i: usize = from;
    let ghost d = nats(g@);
    while i < to
        invariant
            from <= i <= to <= g.len(),
            d == nats(g@),
            r@ == groups_text(d.subrange(from as int, i as int)),
        decreases to - i,
    {
        proof {
            let t = d.subrange(from as int, i + 1);
            assert(t.drop_last() =~= d.subrange(from as int, i as int));
            assert(t.last() == g@[i as int] as nat);
        }
        if i > from {
            r.push(':');
        }
        let h = hex_string(g[i]);
        let ghost before = r@;
        r.append(h.as_str());
        proof {
            if i == from {
                assert(before =~= Seq::<char>::empty());
                assert(r@ =~= h@);
            }
        }
        i += 1;
    }
    r
}

/// The eight groups of an IPv6 address.
fn groups_of(n: u128) -> (r: Vec<u16>)
    ensures
        nats(r@) == to_digits(n as nat, 65536, 8),
        r@.len() == 8,
{
    let g7: u16 = (n % 65536) as u16;
    let n6: u128 = n / 65536;
    let g6: u16 = (n6 % 65536) as u16;
    let n5: u128 = n6 / 65536;
    let g5: u16 = (n5 % 65536) as u16;
    let n4: u128 = n5 / 65536;
    let g4: u16 = (n4 % 65536) as u16;
    let n3: u128 = n4 / 65536;
    let g3: u16 = (n3 % 65536) as u16;
    let n2: u128 = n3 / 65536;
    let g2: u16 = (n2 % 65536) as u16;
    let n1: u128 = n2 / 65536;
    let g1: u16 = (n1 % 65536) as u16;
    let n0: u128 = n1 / 65536;
    let g0: u16 = (n0 % 65536) as u16;
    let r: Vec<u16> = vec![g0, g1, g2, g3, g4, g5, g6, g7];
    proof {
        reveal_with_fuel(to_digits, 9);
        assert(nats(r@) =~= to_digits(n as nat, 65536, 8));
    }
    r
}

/// How many groups of zeros stand from position `i` on without a break.
fn count_zeros_at(g: &Vec<u16>, i: usize) -> (r: usize)
    requires
        i <= g.len(),
    ensures
        r == zeros_at(nats(g@), i as int),
        i + r <= g.len(),
    decreases g.len() - i,
{
    if i < g.len() && g[i] == 0 {
        1 + count_zeros_at(g, i + 1)
    } else {
        0
    }
}

/// The text of an IPv6 address.
fn v6_string(n: u128) -> (r: String)
    ensures
        r@ == v6_text(n as nat),
{
    if n / 0x1_0000_0000 == 0xffff {
        let mut r = String::new();
        r.push(':');
        r.push(':');
        r.push('f');
        r.push('f');
        r.push('f');
        r.push('f');
        r.push(':');
        let low = v4_string((n % 0x1_0000_0000) as u32);
        r.append(low.as_str());
        proof {
            assert(r@ =~= v6_text(n as nat));
        }
        return r;
    }
    let g = groups_of(n);
    let mut start: usize = 0;
    let mut len: usize = 0;
    let mut i: usize = 0;
    while i < 8
        invariant
            0 <= i <= 8,
            g@.len() == 8,
            start + len <= 8,
            (start as int, len as nat) == longest_zeros(nats(g@), i as nat),
        decreases 8 - i,
    {
        let here = count_zeros_at(&g, i);
        if here > len {
            start = i;
            len = here;
        }
        i += 1;
    }
    let ghost d = nats(g@);
    if len >= 2 {
        let mut r = groups_string(&g, 0, start);
        r.push(':');
        r.push(':');
        let tail = groups_string(&g, start + len, 8);
        r.append(tail.as_str());
        proof {
            assert(d.subrange(0, start as int) =~= d.take(start as int));
            assert(d.subrange(start + len, 8) =~= d.skip(start + len));
            assert(r@ =~= v6_text(n as nat));
        }
        r
    } else {
        proof {
            assert(d.subrange(0, 8) =~= d);
        }
        groups_string(&g, 0, 8)
    }
}

/// The text of an address.
pub fn ip_string(ip: IpAddr) -> (r: String)
    ensures
        r@ == ip_text(ip),
{
    match ip {
        IpAddr::V4(n) => v4_string(n),
        IpAddr::V6(n) => v6_string(n),
    }
}

/// The text of an address and a port.
pub fn socket_string(a: SocketAddr) -> (r: String)
    ensures
        r@ == socket_text(a),
{
    let port = decimal_of(a.port as u64);
    let ip = ip_string(a.ip);
    let mut r = String::new();
    match a.ip {
        IpAddr::V4(_) => {
            r.append(ip.as_str());
            r.push(':');
        },
        IpAddr::V6(_) => {
            r.push('[');
            r.append(ip.as_str());
            r.push(']');
            r.push(':');
        },
    }
    r.append(port.as_str());
    proof {
        assert(r@ =~= socket_text(a));
    }
    r
}

/// The addresses that the texts spell; a text that spells none is passed over.
pub open spec fn addresses(s: Seq<Seq<char>>) -> Seq<IpAddr>
    decreases s.len(),
{
    if s.len() == 0 {
        Seq::<IpAddr>::empty()
    } else {
        match ip_value(s.last()) {
            Some(ip) => addresses(s.drop_last()).push(ip),
            None => addresses(s.drop_last()),
        }
    }
}

/// The addresses that the texts spell.
pub fn parse_addresses(v: &Vec<String>) -> (r: Vec<IpAddr>)
    ensures
        r@ == addresses(texts(v@)),
{
    let mut r: Vec<IpAddr> = Vec::new();
    let mut i: usize = 0;
    let ghost all = texts(v@);
    while i < v.len()
        invariant
            0 <= i <= v.len(),
            all == texts(v@),
            r@ == addresses(all.take(i as int)),
        decreases v.len() - i,
    {
        proof {
            assert(all.take(i + 1).drop_last() =~= all.take(i as int));
            assert(all.take(i + 1).last() == v@[i as int]@);
        }
        match parse_ip(v[i].as_str()) {
            Some(ip) => {
                r.push(ip);
            },
            None => {},
        }
        i += 1;
    }
    proof {
        assert(all.take(i as int) =~= all);
    }
    r
}

// ── Reading what was written ────────────────────────────────────────────────

/// A number is read back from its decimal form.
pub proof fn lemma_decimal(n: nat)
    ensures
        digits_value(decimal(n)) == n,
        decimal(n).len() > 0,
        forall|i: int| 0 <= i < decimal(n).len() ==> is_digit(#[trigger] decimal(n)[i]),
        n > 0 ==> decimal(n)[0] != '0',
        n < 10 ==> decimal(n).len() == 1,
        10 <= n < 100 ==> decimal(n).len() == 2,
        100 <= n < 1000 ==> decimal(n).len() == 3,
    decreases n,
{
    if n < 10 {
        let s = decimal(n);
        assert(s.drop_last() =~= Seq::<char>::empty());
        assert(digits_value(s.drop_last()) == 0);
    } else {
        let f = decimal(n / 10);
        lemma_decimal(n / 10);
        let s = decimal(n);
        assert(s.drop_last() =~= f);
        assert(s.last() == digit_char(n % 10));
        assert forall|i: int| 0 <= i < s.len() implies is_digit(#[trigger] s[i]) by {
            if i < f.len() {
                assert(s[i] == f[i]);
            }
        }
        assert(s[0] == f[0]);
    }
}

/// A number from 0 to 255 is read back from its decimal form.
proof fn lemma_octet(n: nat)
    requires
        n < 256,
    ensures
        octet_value(decimal(n)) == Some(n),
        !decimal(n).contains('.'),
        !decimal(n).contains(':'),
{
    lemma_decimal(n);
    let s = decimal(n);
    if s.contains('.') {
        let i = choose|i: int| 0 <= i < s.len() && s[i] == '.';
        assert(is_digit(s[i]));
    }
    if s.contains(':') {
        let i = choose|i: int| 0 <= i < s.len() && s[i] == ':';
        assert(is_digit(s[i]));
    }
}

/// The four numbers of a dotted address.
spec fn octets(n: nat) -> Seq<nat> {
    to_digits(n, 256, 4)
}

proof fn lemma_octets(n: nat)
    requires
        n < 0x1_0000_0000,
    ensures
        octets(n).len() == 4,
        forall|i: int| 0 <= i < 4 ==> #[trigger] octets(n)[i] < 256,
        v4_bits(octets(n)[0], octets(n)[1], octets(n)[2], octets(n)[3]) == n,
{
    reveal_with_fuel(to_digits, 5);
    let d = octets(n);
    assert(d[3] == n % 256);
    assert(d[2] == n / 256 % 256);
    assert(d[1] == n / 256 / 256 % 256);
    assert(d[0] == n / 256 / 256 / 256 % 256);
}

/// The pieces of the dotted form.
spec fn v4_parts(n: nat) -> Seq<Seq<char>> {
    seq![
        decimal(octets(n)[0]),
        decimal(octets(n)[1]),
        decimal(octets(n)[2]),
        decimal(octets(n)[3]),
    ]
}

proof fn lemma_v4_text_is_joined(n: nat)
    ensures
        v4_text(n) == joined(v4_parts(n), seq!['.']),
{
    let p = v4_parts(n);
    reveal_with_fuel(joined, 5);
    assert(p.drop_last() =~= seq![p[0], p[1], p[2]]);
    assert(p.drop_last().drop_last() =~= seq![p[0], p[1]]);
    assert(p.drop_last().drop_last().drop_last() =~= seq![p[0]]);
    assert(joined(p, seq!['.']) =~= v4_text(n));
}

/// An IPv4 address is read back from its dotted form.
proof fn lemma_v4_round_trip(n: nat)
    requires
        n < 0x1_0000_0000,
    ensures
        v4_value(v4_text(n)) == Some(n),
        !v4_text(n).contains(':'),
        v4_text(n).len() >= 7,
{
    lemma_octets(n);
    lemma_v4_text_is_joined(n);
    let p = v4_parts(n);
    let d = octets(n);
    assert forall|i: int| 0 <= i < p.len() implies !(#[trigger] p[i]).contains('.') by {
        lemma_octet(d[i]);
    }
    lemma_octet(d[0]);
    lemma_octet(d[1]);
    lemma_octet(d[2]);
    lemma_octet(d[3]);
    lemma_decimal(d[0]);
    lemma_decimal(d[1]);
    lemma_decimal(d[2]);
    lemma_decimal(d[3]);
    lemma_pieces_of_joined(p, '.');
    let s = v4_text(n);
    if s.contains(':') {
        let k = choose|k: int| 0 <= k < s.len() && s[k] == ':';
        let a = p[0].len();
        let b = p[1].len();
        let c = p[2].len();
        if k < a {
            assert(p[0][k] == ':');
        } else if a < k < a + 1 + b {
            assert(p[1][k - a - 1] == ':');
        } else if a + 1 + b < k < a + b + c + 2 {
            assert(p[2][k - a - b - 2] == ':');
        } else if a + b + c + 2 < k {
            assert(p[3][k - a - b - c - 3] == ':');
        }
    }
}

/// A hexadecimal character of a text that holds no others is none of the separators.
proof fn lemma_hex(n: nat)
    ensures
        hex_run(hex(n)) == Some(n),
        hex(n).len() > 0,
        forall|i: int| 0 <= i < hex(n).len() ==> hex_value(#[trigger] hex(n)[i]) is Some,
        n < 0x10 ==> hex(n).len() <= 1,
        n < 0x100 ==> hex(n).len() <= 2,
        n < 0x1000 ==> hex(n).len() <= 3,
        n < 0x1_0000 ==> hex(n).len() <= 4,
    decreases n,
{
    let s = hex(n);
    if n < 16 {
        assert(s.drop_last() =~= Seq::<char>::empty());
        assert(hex_run(s.drop_last()) == Some(0nat));
        assert(hex_value(hex_char(n)) == Some(n));
    } else {
        let f = hex(n / 16);
        lemma_hex(n / 16);
        assert(s.drop_last() =~= f);
        assert(hex_value(hex_char(n % 16)) == Some(n % 16));
        assert forall|i: int| 0 <= i < s.len() implies hex_value(#[trigger] s[i]) is Some by {
            if i < f.len() {
                assert(s[i] == f[i]);
            }
        }
    }
}

/// A group is read back from its hexadecimal form, which holds no separator.
proof fn lemma_group(n: nat)
    requires
        n < 65536,
    ensures
        group_value(hex(n)) == Some(n),
        !hex(n).contains(':'),
        !hex(n).contains('.'),
        hex(n).len() > 0,
{
    lemma_hex(n);
    let s = hex(n);
    if s.contains(':') {
        let i = choose|i: int| 0 <= i < s.len() && s[i] == ':';
        assert(hex_value(s[i]) is Some);
    }
    if s.contains('.') {
        let i = choose|i: int| 0 <= i < s.len() && s[i] == '.';
        assert(hex_value(s[i]) is Some);
    }
}

/// Groups in hexadecimal.
spec fn hexes(g: Seq<nat>) -> Seq<Seq<char>> {
    g.map_values(|n: nat| hex(n))
}

/// All of them are groups.
spec fn are_groups(g: Seq<nat>) -> bool {
    forall|i: int| 0 <= i < g.len() ==> #[trigger] g[i] < 65536
}

proof fn lemma_groups_text_is_joined(g: Seq<nat>)
    ensures
        groups_text(g) == joined(hexes(g), seq![':']),
    decreases g.len(),
{
    if g.len() > 1 {
        lemma_groups_text_is_joined(g.drop_last());
        assert(hexes(g).drop_last() =~= hexes(g.drop_last()));
        assert(groups_text(g) =~= joined(hexes(g), seq![':']));
    }
}

proof fn lemma_plain_groups_of_hexes(g: Seq<nat>)
    requires
        are_groups(g),
    ensures
        plain_groups(hexes(g)) == Some(g),
    decreases g.len(),
{
    if g.len() == 0 {
        assert(hexes(g) =~= Seq::<Seq<char>>::empty());
        assert(g =~= Seq::<nat>::empty());
    } else {
        let f = g.drop_last();
        assert forall|i: int| 0 <= i < f.len() implies #[trigger] f[i] < 65536 by {
            assert(g[i] < 65536);
        }
        lemma_plain_groups_of_hexes(f);
        assert(hexes(g).drop_last() =~= hexes(f));
        assert(g[g.len() - 1] < 65536);
        lemma_group(g.last());
        assert(f.push(g.last()) =~= g);
    }
}

/// Groups are read back from their text.
proof fn lemma_groups_round_trip(g: Seq<nat>, dotted: bool)
    requires
        are_groups(g),
    ensures
        groups_value(groups_text(g), dotted) == Some(g),
{
    let s = groups_text(g);
    if g.len() == 0 {
        assert(g =~= Seq::<nat>::empty());
    } else {
        lemma_groups_text_is_joined(g);
        let h = hexes(g);
        assert forall|i: int| 0 <= i < h.len() implies !(#[trigger] h[i]).contains(':') by {
            assert(g[i] < 65536);
            lemma_group(g[i]);
        }
        lemma_pieces_of_joined(h, ':');
        lemma_plain_groups_of_hexes(g);
        lemma_groups_text_shape(g);
    }
}

/// The text of groups holds no dot and no pair of colons, and neither starts nor ends with a
/// colon.
proof fn lemma_groups_text_shape(g: Seq<nat>)
    requires
        are_groups(g),
    ensures
        g.len() > 0 ==> groups_text(g).len() > 0 && groups_text(g)[0] != ':' && groups_text(g).last()
            != ':',
        g.len() == 0 ==> groups_text(g).len() == 0,
        !groups_text(g).contains('.'),
        forall|i: int|
            0 <= i < groups_text(g).len() - 1 ==> !(#[trigger] groups_text(g)[i] == ':' && groups_text(
                g,
            )[i + 1] == ':'),
    decreases g.len(),
{
    let s = groups_text(g);
    if g.len() == 1 {
        assert(g[0] < 65536);
        lemma_group(g[0]);
        assert(s == hex(g[0]));
        assert(forall|i: int| 0 <= i < s.len() ==> #[trigger] s[i] != ':') by {
            if exists|i: int| 0 <= i < s.len() && #[trigger] s[i] == ':' {
                assert(s.contains(':'));
            }
        }
    } else if g.len() > 1 {
        let f = g.drop_last();
        assert forall|i: int| 0 <= i < f.len() implies #[trigger] f[i] < 65536 by {
            assert(g[i] < 65536);
        }
        lemma_groups_text_shape(f);
        assert(g[g.len() - 1] < 65536);
        lemma_group(g.last());
        let a = groups_text(f);
        let h = hex(g.last());
        assert(s == a.push(':') + h);
        assert(forall|i: int| 0 <= i < h.len() ==> #[trigger] h[i] != ':' && h[i] != '.') by {
            if exists|i: int| 0 <= i < h.len() && #[trigger] h[i] == ':' {
                assert(h.contains(':'));
            }
            if exists|i: int| 0 <= i < h.len() && #[trigger] h[i] == '.' {
                assert(h.contains('.'));
            }
        }
        assert(s[0] == a[0]);
        assert(s.last() == h.last());
        if s.contains('.') {
            let k = choose|k: int| 0 <= k < s.len() && s[k] == '.';
            if k < a.len() {
                assert(a[k] == '.');
            } else if k > a.len() {
                assert(h[k - a.len() - 1] == '.');
            }
        }
        assert forall|i: int| 0 <= i < s.len() - 1 implies !(#[trigger] s[i] == ':' && s[i + 1] == ':') by {
            if i < a.len() - 1 {
                assert(s[i] == a[i] && s[i + 1] == a[i + 1]);
            } else if i == a.len() - 1 {
                assert(s[i] == a.last());
            } else {
                assert(s[i + 1] == h[i - a.len()]);
            }
        }
    }
}

/// The first pair of colons stands at `k` where there is none before it.
proof fn lemma_double_colon_at(s: Seq<char>, i: int, k: int)
    requires
        0 <= i <= k <= s.len(),
        k < s.len() ==> k + 1 < s.len() && s[k] == ':' && s[k + 1] == ':',
        forall|j: int|
            i <= j < k && j + 1 < s.len() ==> !(#[trigger] s[j] == ':' && s[j + 1] == ':'),
    ensures
        double_colon(s, i) == k,
    decreases k - i,
{
    if i < k {
        if i + 1 < s.len() {
            assert(!(s[i] == ':' && s[i + 1] == ':'));
            lemma_double_colon_at(s, i + 1, k);
        }
    }
}

proof fn lemma_zeros_at(g: Seq<nat>, i: int)
    requires
        0 <= i <= g.len(),
    ensures
        i + zeros_at(g, i) <= g.len(),
        forall|k: int| i <= k < i + zeros_at(g, i) ==> #[trigger] g[k] == 0,
    decreases g.len() - i,
{
    if i < g.len() && g[i] == 0 {
        lemma_zeros_at(g, i + 1);
    }
}

proof fn lemma_longest_zeros(g: Seq<nat>, n: nat)
    requires
        n <= g.len(),
    ensures
        0 <= longest_zeros(g, n).0,
        longest_zeros(g, n).0 + longest_zeros(g, n).1 <= g.len(),
        forall|k: int|
            longest_zeros(g, n).0 <= k < longest_zeros(g, n).0 + longest_zeros(g, n).1
                ==> #[trigger] g[k] == 0,
    decreases n,
{
    if n > 0 {
        lemma_longest_zeros(g, (n - 1) as nat);
        lemma_zeros_at(g, n - 1);
    }
}

proof fn lemma_to_digits(n: nat, b: nat, k: nat)
    requires
        b > 0,
        n < vstd::arithmetic::power::pow(b as int, k),
    ensures
        to_digits(n, b, k).len() == k,
        forall|i: int| 0 <= i < k ==> #[trigger] to_digits(n, b, k)[i] < b,
        from_digits(to_digits(n, b, k), b) == n,
    decreases k,
{
    reveal(vstd::arithmetic::power::pow);
    if k > 0 {
        let l = vstd::arithmetic::power::pow(b as int, (k - 1) as nat);
        assert(n / b < l) by (nonlinear_arith)
            requires
                b > 0,
                n < b * l,
        ;
        lemma_to_digits(n / b, b, (k - 1) as nat);
        let d = to_digits(n, b, k);
        let f = to_digits(n / b, b, (k - 1) as nat);
        assert(d.drop_last() =~= f);
        assert(n / b * b + n % b == n) by (nonlinear_arith)
            requires
                b > 0,
        ;
        assert forall|i: int| 0 <= i < k implies #[trigger] d[i] < b by {
            if i < k - 1 {
                assert(d[i] == f[i]);
            } else {
                assert(n % b < b) by (nonlinear_arith)
                    requires
                        b > 0,
                ;
            }
        }
    }
}

/// The eight groups of an IPv6 address.
proof fn lemma_v6_digits(n: nat)
    requires
        n <= u128::MAX,
    ensures
        to_digits(n, 65536, 8).len() == 8,
        are_groups(to_digits(n, 65536, 8)),
        from_digits(to_digits(n, 65536, 8), 65536) == n,
{
    assert(vstd::arithmetic::power::pow(65536, 8) == 0x1_0000_0000_0000_0000_0000_0000_0000_0000) by {
        reveal_with_fuel(vstd::arithmetic::power::pow, 9);
    }
    lemma_to_digits(n, 65536, 8);
}

/// A text without a dot is no dotted address.
proof fn lemma_no_dot_no_v4(s: Seq<char>)
    requires
        !s.contains('.'),
    ensures
        v4_value(s) is None,
{
    assert(joined(seq![s], seq!['.']) == s);
    lemma_pieces_of_joined(seq![s], '.');
}

/// An IPv6 address whose text has a pair of colons is read back.
proof fn lemma_shortened_round_trip(g: Seq<nat>, at: int, run: nat)
    requires
        g.len() == 8,
        are_groups(g),
        0 <= at,
        1 <= run,
        at + run <= 8,
        forall|k: int| at <= k < at + run ==> #[trigger] g[k] == 0,
    ensures
        v6_groups(groups_text(g.take(at)) + seq![':', ':'] + groups_text(g.skip(at + run))) == Some(g),
        v4_value(groups_text(g.take(at)) + seq![':', ':'] + groups_text(g.skip(at + run))) is None,
{
    let head = g.take(at);
    let tail = g.skip(at + run);
    assert forall|i: int| 0 <= i < head.len() implies #[trigger] head[i] < 65536 by {
        assert(g[i] < 65536);
    }
    assert forall|i: int| 0 <= i < tail.len() implies #[trigger] tail[i] < 65536 by {
        assert(g[i + at + run] < 65536);
    }
    let a = groups_text(head);
    let b = groups_text(tail);
    let s = a + seq![':', ':'] + b;
    lemma_groups_text_shape(head);
    lemma_groups_text_shape(tail);
    assert(s[a.len() as int] == ':' && s[a.len() as int + 1] == ':');
    assert forall|j: int| 0 <= j < a.len() && j + 1 < s.len() implies !(#[trigger] s[j] == ':' && s[j + 1]
        == ':') by {
        assert(s[j] == a[j]);
        if j < a.len() - 1 {
            assert(s[j + 1] == a[j + 1]);
        } else {
            assert(s[j] == a.last());
        }
    }
    lemma_double_colon_at(s, 0, a.len() as int);
    assert(s.take(a.len() as int) =~= a);
    assert(s.skip(a.len() as int + 2) =~= b);
    lemma_groups_round_trip(head, false);
    lemma_groups_round_trip(tail, true);
    assert(head + zero_groups((8 - head.len() - tail.len()) as nat) + tail =~= g);
    if s.contains('.') {
        let k = choose|k: int| 0 <= k < s.len() && s[k] == '.';
        if k < a.len() {
            assert(a[k] == '.');
        } else if k >= a.len() + 2 {
            assert(b[k - a.len() - 2] == '.');
        }
    }
    lemma_no_dot_no_v4(s);
}

/// An IPv6 address whose text shows all groups is read back.
proof fn lemma_full_round_trip(g: Seq<nat>)
    requires
        g.len() == 8,
        are_groups(g),
    ensures
        v6_groups(groups_text(g)) == Some(g),
        v4_value(groups_text(g)) is None,
{
    let s = groups_text(g);
    lemma_groups_text_shape(g);
    lemma_double_colon_at(s, 0, s.len() as int);
    lemma_groups_round_trip(g, true);
    lemma_no_dot_no_v4(s);
}

/// Four digits `f`.
spec fn ffff() -> Seq<char> {
    seq!['f', 'f', 'f', 'f']
}

proof fn lemma_ffff()
    ensures
        plain_groups(seq![ffff()]) == Some(seq![0xffffnat]),
        !ffff().contains(':'),
{
    let f = ffff();
    assert(hex_run(f) == Some(0xffffnat)) by {
        reveal_with_fuel(hex_run, 5);
        assert(f.drop_last() =~= seq!['f', 'f', 'f']);
        assert(f.drop_last().drop_last() =~= seq!['f', 'f']);
        assert(f.drop_last().drop_last().drop_last() =~= seq!['f']);
        assert(f.drop_last().drop_last().drop_last().drop_last() =~= Seq::<char>::empty());
    }
    reveal_with_fuel(plain_groups, 2);
    assert(seq![f].drop_last() =~= Seq::<Seq<char>>::empty());
    assert(Seq::<nat>::empty().push(0xffff) =~= seq![0xffffnat]);
}

/// The groups behind the pair of colons of an IPv4-mapped address.
proof fn lemma_mapped_tail(m: nat)
    requires
        m < 0x1_0000_0000,
    ensures
        groups_value(ffff().push(':') + v4_text(m), true) == Some(
            seq![0xffffnat].push(m / 65536).push(m % 65536),
        ),
{
    let v4 = v4_text(m);
    let t = ffff().push(':') + v4;
    let p = seq![ffff(), v4];
    lemma_v4_round_trip(m);
    lemma_ffff();
    assert forall|i: int| 0 <= i < p.len() implies !(#[trigger] p[i]).contains(':') by {}
    lemma_pieces_of_joined(p, ':');
    assert(p.drop_last() =~= seq![ffff()]);
    assert(joined(p, seq![':']) =~= t) by {
        reveal_with_fuel(joined, 3);
    }
    assert(group_value(p.last()) is None);
    assert(plain_groups(p) is None);
}

proof fn lemma_mapped_digits(n: nat)
    requires
        n / 0x1_0000_0000 == 0xffff,
    ensures
        to_digits(n, 65536, 8) == zero_groups(5) + seq![0xffffnat].push(
            n % 0x1_0000_0000 / 65536,
        ).push(n % 0x1_0000_0000 % 65536),
{
    let g = to_digits(n, 65536, 8);
    let w = zero_groups(5) + seq![0xffffnat].push(n % 0x1_0000_0000 / 65536).push(
        n % 0x1_0000_0000 % 65536,
    );
    reveal_with_fuel(to_digits, 9);
    assert(g[7] == n % 65536);
    assert(g[6] == n / 65536 % 65536);
    assert(n / 65536 / 65536 == 0xffff);
    assert(g[5] == 0xffff);
    assert(g[4] == 0 && g[3] == 0 && g[2] == 0 && g[1] == 0 && g[0] == 0);
    assert(g =~= w);
}

/// An IPv4-mapped address is read back.
proof fn lemma_mapped_round_trip(n: nat)
    requires
        n <= u128::MAX,
        n / 0x1_0000_0000 == 0xffff,
    ensures
        v6_groups(v6_text(n)) == Some(to_digits(n, 65536, 8)),
        v4_value(v6_text(n)) is None,
{
    let m = n % 0x1_0000_0000;
    let s = seq![':', ':', 'f', 'f', 'f', 'f', ':'] + v4_text(m);
    assert(s == v6_text(n));
    lemma_double_colon_at(s, 0, 0);
    assert(s.take(0) =~= Seq::<char>::empty());
    assert(s.skip(2) =~= ffff().push(':') + v4_text(m));
    lemma_mapped_tail(m);
    lemma_mapped_digits(n);
    let tail = seq![0xffffnat].push(m / 65536).push(m % 65536);
    assert(Seq::<nat>::empty() + zero_groups(5) + tail =~= zero_groups(5) + tail);
    lemma_colon_no_v4(s);
}

/// The first piece of a text begins as the text does.
proof fn lemma_first_piece(s: Seq<char>, c: char)
    requires
        s.len() > 0,
        s[0] != c,
    ensures
        pieces(s, c).len() > 0,
        pieces(s, c)[0].len() > 0,
        pieces(s, c)[0][0] == s[0],
    decreases s.len(),
{
    let f = s.drop_last();
    if f.len() > 0 {
        lemma_first_piece(f, c);
    } else {
        assert(pieces(f, c) =~= seq![Seq::<char>::empty()]);
    }
}

/// A text that begins with a colon is no dotted address.
proof fn lemma_colon_no_v4(s: Seq<char>)
    requires
        s.len() > 0,
        s[0] == ':',
    ensures
        v4_value(s) is None,
{
    lemma_first_piece(s, '.');
    assert(!is_digit(pieces(s, '.')[0][0]));
    assert(octet_value(pieces(s, '.')[0]) is None);
}

/// An address is read back from its text.
pub proof fn law_address_round_trip(ip: IpAddr)
    ensures
        ip_value(ip_text(ip)) == Some(ip),
{
    match ip {
        IpAddr::V4(n) => {
            lemma_v4_round_trip(n as nat);
        },
        IpAddr::V6(n) => {
            let g = to_digits(n as nat, 65536, 8);
            lemma_v6_digits(n as nat);
            if n as nat / 0x1_0000_0000 == 0xffff {
                lemma_mapped_round_trip(n as nat);
            } else {
                let run = longest_zeros(g, 8);
                lemma_longest_zeros(g, 8);
                if run.1 >= 2 {
                    lemma_shortened_round_trip(g, run.0, run.1);
                } else {
                    lemma_full_round_trip(g);
                }
            }
        },
    }
}

/// The characters of which addresses are made.
pub open spec fn is_address_char(c: char) -> bool {
    hex_value(c) is Some || c == '.' || c == ':'
}

/// Nothing but characters of addresses.
pub open spec fn is_address_like(s: Seq<char>) -> bool {
    forall|i: int| 0 <= i < s.len() ==> is_address_char(#[trigger] s[i])
}

proof fn lemma_decimal_is_address_like(n: nat)
    ensures
        is_address_like(decimal(n)),
{
    lemma_decimal(n);
    let s = decimal(n);
    assert forall|i: int| 0 <= i < s.len() implies is_address_char(#[trigger] s[i]) by {
        assert(is_digit(s[i]));
    }
}

proof fn lemma_groups_are_address_like(g: Seq<nat>)
    ensures
        is_address_like(groups_text(g)),
    decreases g.len(),
{
    let s = groups_text(g);
    if g.len() == 1 {
        lemma_hex(g[0]);
    } else if g.len() > 1 {
        lemma_groups_are_address_like(g.drop_last());
        lemma_hex(g.last());
        let a = groups_text(g.drop_last());
        let h = hex(g.last());
        assert forall|i: int| 0 <= i < s.len() implies is_address_char(#[trigger] s[i]) by {
            if i < a.len() {
                assert(s[i] == a[i]);
            } else if i > a.len() {
                assert(s[i] == h[i - a.len() - 1]);
            }
        }
    }
}

proof fn lemma_v4_text_is_address_like(n: nat)
    ensures
        is_address_like(v4_text(n)),
{
    let d = to_digits(n, 256, 4);
    lemma_decimal_is_address_like(d[0]);
    lemma_decimal_is_address_like(d[1]);
    lemma_decimal_is_address_like(d[2]);
    lemma_decimal_is_address_like(d[3]);
}

/// The text of an address is made of characters of addresses, and is not empty.
pub proof fn lemma_address_text(ip: IpAddr)
    ensures
        is_address_like(ip_text(ip)),
        ip_text(ip).len() > 0,
{
    match ip {
        IpAddr::V4(n) => {
            lemma_v4_text_is_address_like(n as nat);
        },
        IpAddr::V6(n) => {
            let n = n as nat;
            let g = to_digits(n, 65536, 8);
            let run = longest_zeros(g, 8);
            lemma_v4_text_is_address_like(n % 0x1_0000_0000);
            lemma_groups_are_address_like(g);
            lemma_groups_are_address_like(g.take(run.0));
            lemma_groups_are_address_like(g.skip(run.0 + run.1));
            lemma_v6_digits(n);
            lemma_groups_text_shape(g);
        },
    }
}

// ── What the operations mean ────────────────────────────────────────────────

/// The four bytes of a dotted address stand in its number one after another, the first on top.
pub proof fn law_the_number_of_a_dotted_address(a: u8, b: u8, c: u8, d: u8, r: IpAddr)
    requires
        call_ensures(IpAddr::v4, (a, b, c, d), r),
    ensures
        r matches IpAddr::V4(n) && n == a * 0x100_0000 + b * 0x1_0000 + c * 0x100 + d,
{
}

/// The loopback addresses are those from `127.0.0.0` to `127.255.255.255` and `::1`, and the
/// unspecified ones are `0.0.0.0` and `::`.
pub proof fn law_special_addresses(ip: &IpAddr, loopback: bool, unspecified: bool)
    requires
        call_ensures(IpAddr::is_loopback, (ip,), loopback),
        call_ensures(IpAddr::is_unspecified, (ip,), unspecified),
    ensures
        *ip matches IpAddr::V4(n) ==> (loopback <==> 0x7f00_0000 <= n <= 0x7fff_ffff),
        *ip matches IpAddr::V4(n) ==> (unspecified <==> n == 0),
        *ip matches IpAddr::V6(n) ==> (loopback <==> n == 1),
        *ip matches IpAddr::V6(n) ==> (unspecified <==> n == 0),
{
}

/// An address that is written is read as the same address.
pub proof fn law_written_addresses_are_read_back(ip: IpAddr, s: String, t: &str, r: Option<IpAddr>)
    requires
        call_ensures(ip_string, (ip,), s),
        t@ == s@,
        call_ensures(parse_ip, (t,), r),
    ensures
        r == Some(ip),
{
    law_address_round_trip(ip);
}

/// The dotted form of four numbers.
pub open spec fn dotted(a: nat, b: nat, c: nat, d: nat) -> Seq<char> {
    decimal(a) + seq!['.'] + decimal(b) + seq!['.'] + decimal(c) + seq!['.'] + decimal(d)
}

proof fn lemma_digits_positive(p: Seq<char>)
    requires
        p.len() > 0,
        forall|i: int| 0 <= i < p.len() ==> is_digit(#[trigger] p[i]),
        p[0] != '0',
    ensures
        digits_value(p) >= 1,
    decreases p.len(),
{
    let f = p.drop_last();
    if f.len() > 0 {
        assert forall|i: int| 0 <= i < f.len() implies is_digit(#[trigger] f[i]) by {
            assert(is_digit(p[i]));
        }
        lemma_digits_positive(f);
    } else {
        assert(is_digit(p[0]));
    }
}

proof fn lemma_digit_char(c: char)
    requires
        is_digit(c),
    ensures
        digit_char((c as u32 - '0' as u32) as nat) == c,
{
}

proof fn lemma_one_decimal_form(p: Seq<char>)
    requires
        p.len() > 0,
        forall|i: int| 0 <= i < p.len() ==> is_digit(#[trigger] p[i]),
        p.len() > 1 ==> p[0] != '0',
    ensures
        decimal(digits_value(p)) == p,
    decreases p.len(),
{
    let f = p.drop_last();
    assert(is_digit(p[p.len() - 1]));
    lemma_digit_char(p.last());
    if f.len() == 0 {
        assert(digits_value(f) == 0);
        assert(p =~= seq![p.last()]);
    } else {
        assert forall|i: int| 0 <= i < f.len() implies is_digit(#[trigger] f[i]) by {
            assert(is_digit(p[i]));
        }
        lemma_digits_positive(f);
        lemma_one_decimal_form(f);
        assert(digits_value(p) / 10 == digits_value(f));
        assert(f.push(p.last()) =~= p);
    }
}

/// An IPv4 address is written as its four bytes in decimal, dots between them, and this is the
/// only way in which it may be written.
pub proof fn law_dotted_addresses(n: u32, s: String, t: &str, r: Option<u32>)
    requires
        call_ensures(ip_string, (IpAddr::V4(n),), s),
        call_ensures(parse_v4, (t,), r),
    ensures
        s@ == dotted(
            n as nat / 0x100_0000,
            n as nat / 0x1_0000 % 256,
            n as nat / 0x100 % 256,
            n as nat % 256,
        ),
        r == Some(n) <==> t@ == s@,
{
    let m = n as nat;
    reveal_with_fuel(to_digits, 5);
    let d = to_digits(m, 256, 4);
    assert(d[3] == m % 256);
    assert(d[2] == m / 256 % 256);
    assert(d[1] == m / 256 / 256 % 256);
    assert(d[0] == m / 256 / 256 / 256 % 256);
    assert(m / 256 / 256 == m / 0x1_0000);
    assert(m / 256 / 256 / 256 == m / 0x100_0000);
    lemma_v4_round_trip(m);
    if r == Some(n) {
        let p = pieces(t@, '.');
        let q = v4_parts(m);
        crate::text::lemma_joined_pieces(t@, '.');
        lemma_octets(m);
        lemma_one_decimal_form(p[0]);
        lemma_one_decimal_form(p[1]);
        lemma_one_decimal_form(p[2]);
        lemma_one_decimal_form(p[3]);
        let a = digits_value(p[0]);
        let b = digits_value(p[1]);
        let c = digits_value(p[2]);
        let e = digits_value(p[3]);
        assert(v4_bits(a, b, c, e) == m);
        assert(m % 256 == e);
        assert(m / 256 % 256 == b * 0 + c);
        assert(m / 256 / 256 % 256 == b);
        assert(m / 256 / 256 / 256 % 256 == a);
        assert(p =~= q);
        lemma_v4_text_is_joined(m);
    }
}

/// The digits of hexadecimal are `0` to `9` and then `a` to `f`, in which capitals are read too;
/// nothing else is a digit.
pub(crate) proof fn law_hexadecimal_digits(d: u8, c: char, x: char, r: Option<u16>)
    requires
        d < 16,
        call_ensures(hex_digit_char, (d,), c),
        call_ensures(hex_digit, (x,), r),
    ensures
        d < 10 ==> c as u32 == '0' as u32 + d,
        d >= 10 ==> c as u32 == 'a' as u32 + (d - 10),
        '0' <= x <= '9' ==> r == Some((x as u32 - '0' as u32) as u16),
        'a' <= x <= 'f' ==> r == Some((x as u32 - 'a' as u32 + 10) as u16),
        'A' <= x <= 'F' ==> r == Some((x as u32 - 'A' as u32 + 10) as u16),
        !('0' <= x <= '9') && !('a' <= x <= 'f') && !('A' <= x <= 'F') ==> r is None,
{
}

/// The eight groups of sixteen bits of an address, the highest first.
pub open spec fn eight_groups(n: nat) -> Seq<nat> {
    seq![
        n / 0x1_0000 / 0x1_0000 / 0x1_0000 / 0x1_0000 / 0x1_0000 / 0x1_0000 / 0x1_0000 % 0x1_0000,
        n / 0x1_0000 / 0x1_0000 / 0x1_0000 / 0x1_0000 / 0x1_0000 / 0x1_0000 % 0x1_0000,
        n / 0x1_0000 / 0x1_0000 / 0x1_0000 / 0x1_0000 / 0x1_0000 % 0x1_0000,
        n / 0x1_0000 / 0x1_0000 / 0x1_0000 / 0x1_0000 % 0x1_0000,
        n / 0x1_0000 / 0x1_0000 / 0x1_0000 % 0x1_0000,
        n / 0x1_0000 / 0x1_0000 % 0x1_0000,
        n / 0x1_0000 % 0x1_0000,
        n % 0x1_0000,
    ]
}

/// An IPv6 address may be written as its eight groups of sixteen bits, the highest first, in
/// hexadecimal and with colons between them, or with a pair of colons for any run of zeros.
pub proof fn law_addresses_are_eight_groups(
    n: u128,
    full: &str,
    r: Option<IpAddr>,
    at: int,
    run: int,
    short: &str,
    s: Option<IpAddr>,
)
    requires
        full@ == joined(eight_groups(n as nat).map_values(|g: nat| hex(g)), seq![':']),
        call_ensures(parse_ip, (full,), r),
        0 <= at,
        1 <= run,
        at + run <= 8,
        forall|k: int| at <= k < at + run ==> #[trigger] eight_groups(n as nat)[k] == 0,
        short@ == joined(eight_groups(n as nat).take(at).map_values(|g: nat| hex(g)), seq![':'])
            + seq![':', ':'] + joined(
            eight_groups(n as nat).skip(at + run).map_values(|g: nat| hex(g)),
            seq![':'],
        ),
        call_ensures(parse_ip, (short,), s),
    ensures
        r == Some(IpAddr::V6(n)),
        s == Some(IpAddr::V6(n)),
{
    lemma_eight_groups(n as nat);
    let g = eight_groups(n as nat);
    lemma_v6_digits(n as nat);
    lemma_groups_text_is_joined(g);
    lemma_groups_text_is_joined(g.take(at));
    lemma_groups_text_is_joined(g.skip(at + run));
    lemma_full_round_trip(g);
    lemma_shortened_round_trip(g, at, run as nat);
}

/// Eight groups are read in full whatever run of zeros they have.
pub proof fn law_full_addresses_are_read(n: u128, full: &str, r: Option<IpAddr>)
    requires
        full@ == joined(eight_groups(n as nat).map_values(|g: nat| hex(g)), seq![':']),
        call_ensures(parse_ip, (full,), r),
    ensures
        r == Some(IpAddr::V6(n)),
{
    lemma_eight_groups(n as nat);
    let g = eight_groups(n as nat);
    lemma_v6_digits(n as nat);
    lemma_groups_text_is_joined(g);
    lemma_full_round_trip(g);
}

proof fn lemma_eight_groups(n: nat)
    ensures
        eight_groups(n) == to_digits(n, 65536, 8),
{
    reveal_with_fuel(to_digits, 9);
    assert(eight_groups(n) =~= to_digits(n, 65536, 8));
}

proof fn lemma_plain_group_at(p: Seq<Seq<char>>, i: int)
    requires
        plain_groups(p) is Some,
        0 <= i < p.len(),
    ensures
        group_value(p[i]) is Some,
        plain_groups(p)->0.len() == p.len(),
    decreases p.len(),
{
    let f = p.drop_last();
    if i < f.len() {
        lemma_plain_group_at(f, i);
        assert(f[i] == p[i]);
    } else if f.len() > 0 {
        lemma_plain_group_at(f, 0);
    }
}

proof fn lemma_no_pair_found(s: Seq<char>, i: int)
    requires
        0 <= i,
        forall|k: int| i <= k < s.len() - 1 ==> !(#[trigger] s[k] == ':' && s[k + 1] == ':'),
    ensures
        i <= s.len() ==> double_colon(s, i) == s.len(),
    decreases s.len() - i,
{
    if i + 1 < s.len() {
        assert(!(s[i] == ':' && s[i + 1] == ':'));
        lemma_no_pair_found(s, i + 1);
    }
}

/// What is read as an address and has neither dots nor a pair of colons is eight groups of one to
/// four hexadecimal digits each.
pub proof fn law_what_full_addresses_look_like(s: &str, r: Option<IpAddr>, i: int)
    requires
        call_ensures(parse_ip, (s,), r),
        r is Some,
        !s@.contains('.'),
        forall|k: int| 0 <= k < s@.len() - 1 ==> !(#[trigger] s@[k] == ':' && s@[k + 1] == ':'),
        0 <= i < 8,
    ensures
        r->0 is V6,
        pieces(s@, ':').len() == 8,
        1 <= pieces(s@, ':')[i].len() <= 4,
        forall|k: int|
            0 <= k < pieces(s@, ':')[i].len() ==> hex_value(#[trigger] pieces(s@, ':')[i][k]) is Some,
{
    let p = pieces(s@, ':');
    lemma_no_dot_no_v4(s@);
    lemma_no_pair_found(s@, 0);
    if s@.len() == 0 {
        assert(groups_value(s@, true)->0.len() == 0);
    }
    if plain_groups(p) is None {
        let l = p.last();
        crate::text::lemma_joined_pieces(s@, ':');
        assert(!l.contains('.')) by {
            crate::text::lemma_parts_stand_in_joined(p, seq![':'], p.len() - 1);
            let at = choose|at: int| 0 <= at && #[trigger] crate::text::infix_at(s@, l, at);
            if l.contains('.') {
                let k = choose|k: int| 0 <= k < l.len() && l[k] == '.';
                assert(s@.subrange(at, at + l.len())[k] == '.');
                assert(s@[at + k] == '.');
            }
        }
        lemma_no_dot_no_v4(l);
    }
    crate::text::lemma_joined_pieces(s@, ':');
    lemma_plain_group_at(p, 0);
    lemma_plain_group_at(p, i);
    lemma_hex_run_chars(p[i]);
}

proof fn lemma_hex_run_chars(p: Seq<char>)
    requires
        hex_run(p) is Some,
    ensures
        forall|k: int| 0 <= k < p.len() ==> hex_value(#[trigger] p[k]) is Some,
    decreases p.len(),
{
    if p.len() > 0 {
        let f = p.drop_last();
        lemma_hex_run_chars(f);
        assert forall|k: int| 0 <= k < p.len() implies hex_value(#[trigger] p[k]) is Some by {
            if k < f.len() {
                assert(hex_value(f[k]) is Some);
            }
        }
    }
}

/// A port stands behind its address and a colon; an IPv6 address is put in square brackets.
pub proof fn law_ports_stand_behind_addresses(a: SocketAddr, r: String, ip: String)
    requires
        call_ensures(socket_string, (a,), r),
        call_ensures(ip_string, (a.ip,), ip),
    ensures
        a.ip is V4 ==> r@ == ip@ + seq![':'] + decimal(a.port as nat),
        a.ip is V6 ==> r@ == seq!['['] + ip@ + seq![']', ':'] + decimal(a.port as nat),
{
}

/// Each text that is an address gives it, in order; the others are passed over.
pub proof fn law_the_addresses_of_a_list(
    v: &Vec<String>,
    more: &Vec<String>,
    last: String,
    t: &str,
    ip: Option<IpAddr>,
    r: Vec<IpAddr>,
    all: Vec<IpAddr>,
)
    requires
        call_ensures(parse_addresses, (v,), r),
        call_ensures(parse_addresses, (more,), all),
        more@ == v@.push(last),
        t@ == last@,
        call_ensures(parse_ip, (t,), ip),
    ensures
        v@.len() == 0 ==> r@.len() == 0,
        ip matches Some(a) ==> all@ == r@.push(a),
        ip is None ==> all@ == r@,
{
    assert(texts(v@).len() == v@.len());
    assert(texts(more@).drop_last() =~= texts(v@));
    assert(texts(more@).last() == last@);
}

}
