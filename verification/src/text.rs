//! Text as a sequence of characters: the few operations the daemon needs, each
//! with a model on `Seq<char>`.
use vstd::prelude::*;
use vstd::string::*;

verus! {

/// `String::push`: appends one character at the end.
pub assume_specification[ String::push ](s: &mut String, c: char)
    ensures
        final(s)@ == old(s)@.push(c),
;

/// A Unicode white-space character.
pub open spec fn is_white(c: char) -> bool {
    let n = c as u32;
    ||| 0x9 <= n <= 0xd
    ||| n == 0x20
    ||| n == 0x85
    ||| n == 0xa0
    ||| n == 0x1680
    ||| 0x2000 <= n <= 0x200a
    ||| n == 0x2028
    ||| n == 0x2029
    ||| n == 0x202f
    ||| n == 0x205f
    ||| n == 0x3000
}

/// `s` without the white space it starts with.
pub open spec fn trim_start(s: Seq<char>) -> Seq<char>
    decreases s.len(),
{
    if s.len() > 0 && is_white(s[0]) {
        trim_start(s.skip(1))
    } else {
        s
    }
}

/// `s` without the white space it ends with.
pub open spec fn trim_end(s: Seq<char>) -> Seq<char>
    decreases s.len(),
{
    if s.len() > 0 && is_white(s.last()) {
        trim_end(s.drop_last())
    } else {
        s
    }
}

/// `s` without white space at either end.
pub open spec fn trimmed(s: Seq<char>) -> Seq<char> {
    trim_end(trim_start(s))
}

/// `s` starts with `p`.
pub open spec fn has_prefix(s: Seq<char>, p: Seq<char>) -> bool {
    p.len() <= s.len() && s.take(p.len() as int) == p
}

/// `s` ends with `p`.
pub open spec fn has_suffix(s: Seq<char>, p: Seq<char>) -> bool {
    p.len() <= s.len() && s.skip(s.len() - p.len()) == p
}

/// `p` stands somewhere inside `s`.
pub open spec fn has_infix(s: Seq<char>, p: Seq<char>) -> bool {
    exists|i: int| 0 <= i && #[trigger] infix_at(s, p, i)
}

/// `p` stands in `s` at position `i`.
pub open spec fn infix_at(s: Seq<char>, p: Seq<char>, i: int) -> bool {
    i + p.len() <= s.len() && s.subrange(i, i + p.len()) == p
}

/// The pieces of `s` between the separators `c`: one more piece than separators.
pub open spec fn pieces(s: Seq<char>, c: char) -> Seq<Seq<char>>
    decreases s.len(),
{
    if s.len() == 0 {
        seq![Seq::<char>::empty()]
    } else {
        let p = pieces(s.drop_last(), c);
        if s.last() == c {
            p.push(Seq::<char>::empty())
        } else {
            p.drop_last().push(p.last().push(s.last()))
        }
    }
}

/// A line without the carriage return before its line feed.
pub open spec fn without_cr(s: Seq<char>) -> Seq<char> {
    if s.len() > 0 && s.last() == '\r' {
        s.drop_last()
    } else {
        s
    }
}

/// The lines of `s`.  A line ends with a line feed or a carriage return and a line
/// feed; the last one may lack its ending.
pub open spec fn text_lines(s: Seq<char>) -> Seq<Seq<char>> {
    let p = pieces(s, '\n');
    let ended = p.drop_last().map_values(|l: Seq<char>| without_cr(l));
    if p.last().len() == 0 {
        ended
    } else {
        ended.push(p.last())
    }
}

/// The runs of characters of `s` that are not white space.  The flag says whether
/// the last run is still open at the end of `s`.
pub open spec fn word_runs(s: Seq<char>) -> (Seq<Seq<char>>, bool)
    decreases s.len(),
{
    if s.len() == 0 {
        (Seq::<Seq<char>>::empty(), false)
    } else {
        let (w, open) = word_runs(s.drop_last());
        if is_white(s.last()) {
            (w, false)
        } else if open {
            (w.drop_last().push(w.last().push(s.last())), true)
        } else {
            (w.push(seq![s.last()]), true)
        }
    }
}

/// The words of `s`: its maximal runs without white space.
pub open spec fn words(s: Seq<char>) -> Seq<Seq<char>> {
    word_runs(s).0
}

/// `c` with `A` to `Z` made lower case.
pub open spec fn lower_char(c: char) -> char {
    if 'A' <= c <= 'Z' {
        ((c as u32 + 32) as u32) as char
    } else {
        c
    }
}

/// `s` with `A` to `Z` made lower case.
pub open spec fn lower(s: Seq<char>) -> Seq<char> {
    s.map_values(|c: char| lower_char(c))
}

/// The parts one after another, `sep` between each two.
pub open spec fn joined(parts: Seq<Seq<char>>, sep: Seq<char>) -> Seq<char>
    decreases parts.len(),
{
    if parts.len() == 0 {
        Seq::<char>::empty()
    } else if parts.len() == 1 {
        parts[0]
    } else {
        joined(parts.drop_last(), sep) + sep + parts.last()
    }
}

/// The texts that a list of strings holds.
pub open spec fn texts(v: Seq<String>) -> Seq<Seq<char>> {
    v.map_values(|s: String| s@)
}

/// The text that an optional string holds.
pub open spec fn opt_text(o: Option<String>) -> Option<Seq<char>> {
    match o {
        Some(s) => Some(s@),
        None => None,
    }
}

/// The decimal digit `d`.
pub open spec fn digit_char(d: nat) -> char
    recommends
        d < 10,
{
    ((0x30 + d) as u32) as char
}

/// `n` in decimal, without leading zeros.
pub open spec fn decimal(n: nat) -> Seq<char>
    decreases n,
{
    if n < 10 {
        seq![digit_char(n)]
    } else {
        decimal(n / 10).push(digit_char(n % 10))
    }
}

/// The characters of `s`.
pub fn chars_of(s: &str) -> (r: Vec<char>)
    ensures
        r@ == s@,
{
    let mut r: Vec<char> = Vec::new();
    for c in it: s.chars()
        invariant
            it.seq() == s@,
            r@ == s@.take(it.index() as int),
    {
        proof {
            assert(s@.take(it.index() + 1) == s@.take(it.index() as int).push(c));
        }
        r.push(c);
    }
    proof {
        assert(s@.take(s@.len() as int) == s@);
    }
    r
}

/// The string made of `v[from..to]`.
pub fn string_of(v: &Vec<char>, from: usize, to: usize) -> (r: String)
    requires
        from <= to <= v.len(),
    ensures
        r@ == v@.subrange(from as int, to as int),
{
    let mut r = String::new();
    let mut i: usize = from;
    while i < to
        invariant
            from <= i <= to <= v.len(),
            r@ == v@.subrange(from as int, i as int),
        decreases to - i,
    {
        r.push(v[i]);
        proof {
            assert(v@.subrange(from as int, i + 1) == v@.subrange(from as int, i as int).push(v@[i as int]));
        }
        i += 1;
    }
    r
}

/// A copy of `s`.
pub fn copy_of(s: &str) -> (r: String)
    ensures
        r@ == s@,
{
    s.to_owned()
}

/// Whether `p` stands in `v` at position `at`.
fn matches_at(v: &Vec<char>, p: &Vec<char>, at: usize) -> (r: bool)
    requires
        at + p.len() <= v.len(),
    ensures
        r == infix_at(v@, p@, at as int),
{
    let mut i: usize = 0;
    while i < p.len()
        invariant
            0 <= i <= p.len(),
            at + p.len() <= v.len(),
            forall|j: int| 0 <= j < i ==> v@[at + j] == p@[j],
        decreases p.len() - i,
    {
        if v[at + i] != p[i] {
            proof {
                assert(v@.subrange(at as int, at + p@.len())[i as int] == v@[at + i]);
            }
            return false;
        }
        i += 1;
    }
    proof {
        assert(v@.subrange(at as int, at + p@.len()) =~= p@);
    }
    true
}

/// Whether two texts are equal.
pub fn same_text(a: &str, b: &str) -> (r: bool)
    ensures
        r == (a@ == b@),
{
    let va = chars_of(a);
    let vb = chars_of(b);
    if va.len() != vb.len() {
        return false;
    }
    let r = matches_at(&va, &vb, 0);
    proof {
        assert(va@.subrange(0, vb@.len() as int) =~= va@);
    }
    r
}

/// Whether `s` starts with `p`.
pub fn starts_with(s: &str, p: &str) -> (r: bool)
    ensures
        r == has_prefix(s@, p@),
{
    let v = chars_of(s);
    let q = chars_of(p);
    if q.len() > v.len() {
        return false;
    }
    proof {
        assert(v@.subrange(0, q@.len() as int) =~= v@.take(q@.len() as int));
    }
    matches_at(&v, &q, 0)
}

/// Whether `s` ends with `p`.
pub fn ends_with(s: &str, p: &str) -> (r: bool)
    ensures
        r == has_suffix(s@, p@),
{
    let v = chars_of(s);
    let q = chars_of(p);
    if q.len() > v.len() {
        return false;
    }
    let at: usize = v.len() - q.len();
    proof {
        assert(v@.subrange(at as int, at + q@.len()) =~= v@.skip(v@.len() - q@.len()));
    }
    matches_at(&v, &q, at)
}

/// Whether `p` stands somewhere inside `s`.
pub fn contains_text(s: &str, p: &str) -> (r: bool)
    ensures
        r == has_infix(s@, p@),
{
    let v = chars_of(s);
    let q = chars_of(p);
    if q.len() > v.len() {
        return false;
    }
    let last: usize = v.len() - q.len();
    let mut i: usize = 0;
    while i <= last
        invariant
            0 <= i <= last + 1,
            v@ == s@,
            q@ == p@,
            last + q.len() == v.len(),
            forall|j: int| 0 <= j < i ==> !infix_at(s@, p@, j),
        decreases last + 1 - i,
    {
        if matches_at(&v, &q, i) {
            return true;
        }
        if i == last {
            return false;
        }
        i += 1;
    }
    false
}

/// `s` from after the prefix `p`, where it has that prefix.
pub fn strip_prefix(s: &str, p: &str) -> (r: Option<String>)
    ensures
        r is Some <==> has_prefix(s@, p@),
        r matches Some(t) ==> t@ == s@.skip(p@.len() as int),
{
    if !starts_with(s, p) {
        return None;
    }
    let v = chars_of(s);
    let q = chars_of(p);
    let r = string_of(&v, q.len(), v.len());
    proof {
        assert(v@.subrange(q@.len() as int, v@.len() as int) =~= s@.skip(p@.len() as int));
    }
    Some(r)
}

proof fn lemma_trim_start_step(s: Seq<char>, i: int)
    requires
        0 <= i < s.len(),
        is_white(s[i]),
    ensures
        trim_start(s.skip(i)) == trim_start(s.skip(i + 1)),
{
    assert(s.skip(i)[0] == s[i]);
    assert(s.skip(i).skip(1) =~= s.skip(i + 1));
}

/// Whether `c` is white space.
pub fn is_whitespace(c: char) -> (r: bool)
    ensures
        r == is_white(c),
{
    let n: u32 = c as u32;
    (0x9 <= n && n <= 0xd) || n == 0x20 || n == 0x85 || n == 0xa0 || n == 0x1680 || (0x2000 <= n
        && n <= 0x200a) || n == 0x2028 || n == 0x2029 || n == 0x202f || n == 0x205f || n == 0x3000
}

/// `s` without white space at either end.
pub fn trim(s: &str) -> (r: String)
    ensures
        r@ == trimmed(s@),
{
    let v = chars_of(s);
    let mut lo: usize = 0;
    proof {
        assert(s@.skip(0) =~= s@);
    }
    while lo < v.len() && is_whitespace(v[lo])
        invariant
            0 <= lo <= v.len(),
            v@ == s@,
            trim_start(s@) == trim_start(s@.skip(lo as int)),
        decreases v.len() - lo,
    {
        proof {
            lemma_trim_start_step(s@, lo as int);
        }
        lo += 1;
    }
    let ghost t = s@.skip(lo as int);
    proof {
        assert(lo < v.len() ==> t[0] == v@[lo as int]);
        assert(trim_start(s@) == t);
    }
    let mut hi: usize = v.len();
    proof {
        assert(s@.subrange(lo as int, hi as int) =~= t);
    }
    while hi > lo && is_whitespace(v[hi - 1])
        invariant
            lo <= hi <= v.len(),
            v@ == s@,
            trim_end(t) == trim_end(s@.subrange(lo as int, hi as int)),
        decreases hi,
    {
        proof {
            let u = s@.subrange(lo as int, hi as int);
            assert(u.last() == v@[hi - 1]);
            assert(u.drop_last() =~= s@.subrange(lo as int, hi - 1));
        }
        hi -= 1;
    }
    proof {
        let u = s@.subrange(lo as int, hi as int);
        assert(hi > lo ==> u.last() == v@[hi - 1]);
        assert(trim_end(u) == u);
    }
    string_of(&v, lo, hi)
}

/// The pieces of `s` between the separators `c`.
pub fn split_on(s: &str, c: char) -> (r: Vec<String>)
    ensures
        texts(r@) == pieces(s@, c),
        r@.len() >= 1,
{
    let v = chars_of(s);
    let mut r: Vec<String> = Vec::new();
    let mut cur = String::new();
    let mut i: usize = 0;
    proof {
        assert(texts(r@).push(cur@) =~= pieces(s@.take(0), c));
    }
    while i < v.len()
        invariant
            0 <= i <= v.len(),
            v@ == s@,
            texts(r@).push(cur@) == pieces(s@.take(i as int), c),
        decreases v.len() - i,
    {
        let ch = v[i];
        proof {
            let t = s@.take(i + 1);
            assert(t.drop_last() =~= s@.take(i as int));
            assert(t.last() == ch);
        }
        let ghost before = r@;
        let ghost piece = cur@;
        if ch == c {
            r.push(cur);
            cur = String::new();
            proof {
                assert(texts(r@) =~= texts(before).push(piece));
            }
        } else {
            cur.push(ch);
            proof {
                assert(texts(before).push(piece).drop_last() =~= texts(before));
                assert(texts(before).push(piece).last() == piece);
            }
        }
        i += 1;
    }
    proof {
        assert(s@.take(i as int) =~= s@);
    }
    let ghost before = r@;
    let ghost piece = cur@;
    r.push(cur);
    proof {
        assert(texts(r@) =~= texts(before).push(piece));
    }
    r
}

/// The lines of `s`.
pub fn lines(s: &str) -> (r: Vec<String>)
    ensures
        texts(r@) == text_lines(s@),
{
    let p = split_on(s, '\n');
    let ghost ps = pieces(s@, '\n');
    let mut r: Vec<String> = Vec::new();
    let last: usize = p.len() - 1;
    let mut i: usize = 0;
    while i < last
        invariant
            0 <= i <= last,
            last + 1 == p.len(),
            texts(p@) == ps,
            texts(r@) == ps.take(i as int).map_values(|l: Seq<char>| without_cr(l)),
        decreases last - i,
    {
        let v = chars_of(p[i].as_str());
        proof {
            assert(texts(p@)[i as int] == p@[i as int]@);
        }
        let n: usize = if v.len() > 0 && v[v.len() - 1] == '\r' {
            v.len() - 1
        } else {
            v.len()
        };
        let line = string_of(&v, 0, n);
        proof {
            assert(line@ =~= without_cr(ps[i as int]));
        }
        let ghost before = r@;
        let ghost text = line@;
        r.push(line);
        proof {
            assert(texts(r@) =~= texts(before).push(text));
            assert(texts(r@) =~= ps.take(i + 1).map_values(|l: Seq<char>| without_cr(l)));
        }
        i += 1;
    }
    proof {
        assert(ps.take(last as int) =~= ps.drop_last());
        assert(texts(p@)[last as int] == p@[last as int]@);
    }
    if !p[last].as_str().is_empty() {
        let line = copy_of(p[last].as_str());
        let ghost before = r@;
        let ghost text = line@;
        r.push(line);
        proof {
            assert(texts(r@) =~= texts(before).push(text));
        }
    }
    r
}

/// The words of `s`: its maximal runs without white space.
pub fn split_whitespace(s: &str) -> (r: Vec<String>)
    ensures
        texts(r@) == words(s@),
{
    let v = chars_of(s);
    let mut r: Vec<String> = Vec::new();
    let mut cur = String::new();
    let mut open = false;
    let mut i: usize = 0;
    proof {
        assert(texts(r@) =~= word_runs(s@.take(0)).0);
    }
    while i < v.len()
        invariant
            0 <= i <= v.len(),
            v@ == s@,
            open == word_runs(s@.take(i as int)).1,
            open ==> texts(r@).push(cur@) == word_runs(s@.take(i as int)).0,
            !open ==> texts(r@) == word_runs(s@.take(i as int)).0,
            !open ==> cur@ == Seq::<char>::empty(),
        decreases v.len() - i,
    {
        let ch = v[i];
        proof {
            let t = s@.take(i + 1);
            assert(t.drop_last() =~= s@.take(i as int));
            assert(t.last() == ch);
        }
        let ghost before = r@;
        let ghost piece = cur@;
        if is_whitespace(ch) {
            if open {
                r.push(cur);
                cur = String::new();
                open = false;
                proof {
                    assert(texts(r@) =~= texts(before).push(piece));
                }
            }
        } else {
            cur.push(ch);
            proof {
                if open {
                    assert(texts(before).push(piece).drop_last() =~= texts(before));
                    assert(texts(before).push(piece).last() == piece);
                } else {
                    assert(cur@ =~= seq![ch]);
                }
            }
            open = true;
        }
        i += 1;
    }
    proof {
        assert(s@.take(i as int) =~= s@);
    }
    if open {
        let ghost before = r@;
        let ghost piece = cur@;
        r.push(cur);
        proof {
            assert(texts(r@) =~= texts(before).push(piece));
        }
    }
    r
}

/// `c` with `A` to `Z` made lower case.
fn lower_of(c: char) -> (r: char)
    ensures
        r == lower_char(c),
{
    match c {
        'A' => 'a', 'B' => 'b', 'C' => 'c', 'D' => 'd', 'E' => 'e', 'F' => 'f', 'G' => 'g',
        'H' => 'h', 'I' => 'i', 'J' => 'j', 'K' => 'k', 'L' => 'l', 'M' => 'm', 'N' => 'n',
        'O' => 'o', 'P' => 'p', 'Q' => 'q', 'R' => 'r', 'S' => 's', 'T' => 't', 'U' => 'u',
        'V' => 'v', 'W' => 'w', 'X' => 'x', 'Y' => 'y', 'Z' => 'z',
        _ => c,
    }
}

/// `s` with `A` to `Z` made lower case.
pub fn to_ascii_lowercase(s: &str) -> (r: String)
    ensures
        r@ == lower(s@),
{
    let v = chars_of(s);
    let mut r = String::new();
    let mut i: usize = 0;
    while i < v.len()
        invariant
            0 <= i <= v.len(),
            v@ == s@,
            r@ == lower(s@.take(i as int)),
        decreases v.len() - i,
    {
        r.push(lower_of(v[i]));
        proof {
            assert(lower(s@.take(i + 1)) =~= lower(s@.take(i as int)).push(lower_char(v@[i as int])));
        }
        i += 1;
    }
    proof {
        assert(s@.take(i as int) =~= s@);
    }
    r
}

/// The parts one after another, `sep` between each two.
pub fn join(parts: &Vec<String>, sep: &str) -> (r: String)
    ensures
        r@ == joined(texts(parts@), sep@),
{
    let mut r = String::new();
    let mut i: usize = 0;
    let ghost ps = texts(parts@);
    while i < parts.len()
        invariant
            0 <= i <= parts.len(),
            ps == texts(parts@),
            r@ == joined(ps.take(i as int), sep@),
        decreases parts.len() - i,
    {
        proof {
            let t = ps.take(i + 1);
            assert(t.drop_last() =~= ps.take(i as int));
            assert(t.last() == parts@[i as int]@);
            if i == 0 {
                assert(r@ =~= Seq::<char>::empty());
            }
        }
        let ghost before = r@;
        if i > 0 {
            r.append(sep);
        }
        r.append(parts[i].as_str());
        proof {
            if i == 0 {
                assert(r@ =~= parts@[0]@);
            }
        }
        i += 1;
    }
    proof {
        assert(ps.take(i as int) =~= ps);
    }
    r
}

/// The decimal digit `d`.
fn digit_of(d: u64) -> (r: char)
    requires
        d < 10,
    ensures
        r == digit_char(d as nat),
{
    match d {
        0 => '0',
        1 => '1',
        2 => '2',
        3 => '3',
        4 => '4',
        5 => '5',
        6 => '6',
        7 => '7',
        8 => '8',
        _ => '9',
    }
}

/// `n` in decimal, without leading zeros.
pub fn decimal_of(n: u64) -> (r: String)
    ensures
        r@ == decimal(n as nat),
    decreases n,
{
    if n < 10 {
        let mut r = String::new();
        r.push(digit_of(n));
        proof {
            assert(r@ =~= seq![digit_char(n as nat)]);
        }
        r
    } else {
        let mut r = decimal_of(n / 10);
        r.push(digit_of(n % 10));
        r
    }
}

/// A decimal digit.
pub open spec fn is_digit(c: char) -> bool {
    '0' <= c <= '9'
}

/// The number that a run of decimal digits spells.
pub open spec fn digits_value(s: Seq<char>) -> nat
    decreases s.len(),
{
    if s.len() == 0 {
        0
    } else {
        digits_value(s.drop_last()) * 10 + (s.last() as u32 - '0' as u32) as nat
    }
}

/// `s` without one plus sign in front.
pub open spec fn without_plus(s: Seq<char>) -> Seq<char> {
    if s.len() > 0 && s[0] == '+' {
        s.skip(1)
    } else {
        s
    }
}

/// The number that `s` spells in decimal, a plus sign in front allowed, where it is
/// at most `max`.
pub open spec fn unsigned_value(s: Seq<char>, max: nat) -> Option<nat> {
    let d = without_plus(s);
    if d.len() > 0 && (forall|i: int| 0 <= i < d.len() ==> is_digit(#[trigger] d[i]))
        && digits_value(d) <= max {
        Some(digits_value(d))
    } else {
        None
    }
}

proof fn lemma_digits_grow(s: Seq<char>, i: int)
    requires
        0 <= i <= s.len(),
        forall|j: int| 0 <= j < s.len() ==> is_digit(#[trigger] s[j]),
    ensures
        digits_value(s.take(i)) <= digits_value(s),
    decreases s.len() - i,
{
    if i < s.len() {
        assert(s.take(i + 1).drop_last() =~= s.take(i));
        lemma_digits_grow(s, i + 1);
    } else {
        assert(s.take(i) =~= s);
    }
}

/// The number that `s` spells in decimal, a plus sign in front allowed, where it is
/// at most `max`.
pub fn parse_unsigned(s: &str, max: u64) -> (r: Option<u64>)
    requires
        max <= 0xffff_ffff,
    ensures
        (match r {
            Some(n) => unsigned_value(s@, max as nat) == Some(n as nat),
            None => unsigned_value(s@, max as nat) is None,
        }),
{
    let v = chars_of(s);
    let start: usize = if v.len() > 0 && v[0] == '+' {
        1
    } else {
        0
    };
    let ghost d = without_plus(s@);
    proof {
        assert(d =~= v@.skip(start as int));
    }
    if start == v.len() {
        return None;
    }
    let mut n: u64 = 0;
    let mut i: usize = start;
    proof {
        assert(d.take(0) =~= Seq::<char>::empty());
    }
    while i < v.len()
        invariant
            start <= i <= v.len(),
            d == v@.skip(start as int),
            d == without_plus(s@),
            max <= 0xffff_ffff,
            n <= max,
            n == digits_value(d.take(i - start)),
            forall|j: int| 0 <= j < i - start ==> is_digit(#[trigger] d[j]),
        decreases v.len() - i,
    {
        let c = v[i];
        proof {
            assert(d[i - start] == c);
        }
        if !('0' <= c && c <= '9') {
            return None;
        }
        proof {
            assert(d.take(i - start + 1).drop_last() =~= d.take(i - start));
            assert(d.take(i - start + 1).last() == c);
        }
        n = n * 10 + (c as u32 - '0' as u32) as u64;
        if n > max {
            proof {
                if forall|j: int| 0 <= j < d.len() ==> is_digit(#[trigger] d[j]) {
                    lemma_digits_grow(d, i - start + 1);
                }
            }
            return None;
        }
        i += 1;
    }
    proof {
        assert(d.take(i - start) =~= d);
    }
    Some(n)
}

/// What `format!("{:?}")` makes of a text: the text in double quotes, escaped.
pub uninterp spec fn debug_quoted(s: Seq<char>) -> Seq<char>;

/// Formats a text with std's `Debug` for `str`.  The result is a function of the text
/// alone; which characters are escaped is left unsaid.
#[verifier::external_body]
pub(crate) fn quoted(s: &str) -> (r: String)
    ensures
        r@ == debug_quoted(s@),
{
    format!("{:?}", s)
}

/// What `format!("{:?}")` makes of a list of texts: each in double quotes, escaped, in square
/// brackets.
pub uninterp spec fn debug_quoted_list(s: Seq<Seq<char>>) -> Seq<char>;

/// Formats a list of texts with std's `Debug` for lists of strings.  The result is a function
/// of the texts alone; which characters are escaped is left unsaid.
#[verifier::external_body]
pub(crate) fn quoted_list(s: &Vec<String>) -> (r: String)
    ensures
        r@ == debug_quoted_list(texts(s@)),
{
    format!("{:?}", s)
}

/// The position of the first `c` in `s`, or the length of `s`.
pub open spec fn first_index(s: Seq<char>, c: char) -> int
    decreases s.len(),
{
    if s.len() == 0 || s[0] == c {
        0
    } else {
        1 + first_index(s.skip(1), c)
    }
}

/// The first index is the only position with `c` there and no `c` before it.
pub proof fn lemma_first_index(s: Seq<char>, c: char, k: int)
    requires
        0 <= k <= s.len(),
        k < s.len() ==> s[k] == c,
        forall|j: int| 0 <= j < k ==> s[j] != c,
    ensures
        first_index(s, c) == k,
    decreases s.len(),
{
    if k > 0 {
        assert(s[0] != c);
        assert forall|j: int| 0 <= j < k - 1 implies s.skip(1)[j] != c by {
            assert(s[j + 1] != c);
        }
        lemma_first_index(s.skip(1), c, k - 1);
    }
}

/// The position of the first `c`, or the length.
pub fn index_of(v: &Vec<char>, c: char) -> (r: usize)
    ensures
        r == first_index(v@, c),
        r <= v@.len(),
        r < v@.len() ==> v@[r as int] == c,
        forall|j: int| 0 <= j < r ==> v@[j] != c,
{
    let mut i: usize = 0;
    while i < v.len() && v[i] != c
        invariant
            0 <= i <= v.len(),
            forall|j: int| 0 <= j < i ==> v@[j] != c,
        decreases v.len() - i,
    {
        i += 1;
    }
    proof {
        lemma_first_index(v@, c, i as int);
    }
    i
}

/// The position of the last `c` in `s`, or -1.
pub open spec fn last_index(s: Seq<char>, c: char) -> int
    decreases s.len(),
{
    if s.len() == 0 {
        -1
    } else if s.last() == c {
        s.len() - 1
    } else {
        last_index(s.drop_last(), c)
    }
}

/// The last index is the only position with `c` there and no `c` behind it.
pub proof fn lemma_last_index(s: Seq<char>, c: char, k: int)
    requires
        -1 <= k < s.len(),
        k >= 0 ==> s[k] == c,
        forall|j: int| k < j < s.len() ==> s[j] != c,
    ensures
        last_index(s, c) == k,
    decreases s.len(),
{
    if s.len() > 0 && k < s.len() - 1 {
        assert(s[s.len() - 1] != c);
        lemma_last_index(s.drop_last(), c, k);
    }
}

/// The position of the last `c`, where there is one.
pub fn last_index_of(v: &Vec<char>, c: char) -> (r: Option<usize>)
    ensures
        (match r {
            Some(i) => last_index(v@, c) == i && i < v@.len() && v@[i as int] == c,
            None => last_index(v@, c) == -1,
        }),
{
    let mut i: usize = v.len();
    while i > 0
        invariant
            0 <= i <= v.len(),
            forall|j: int| i <= j < v@.len() ==> v@[j] != c,
        decreases i,
    {
        if v[i - 1] == c {
            proof {
                lemma_last_index(v@, c, i - 1);
            }
            return Some(i - 1);
        }
        i -= 1;
    }
    proof {
        lemma_last_index(v@, c, -1);
    }
    None
}

/// Copies of the texts.
pub fn copy_texts(v: &Vec<String>) -> (r: Vec<String>)
    ensures
        texts(r@) == texts(v@),
        r@.len() == v@.len(),
{
    let mut r: Vec<String> = Vec::new();
    let mut i: usize = 0;
    while i < v.len()
        invariant
            0 <= i <= v.len(),
            r@.len() == i,
            forall|j: int| 0 <= j < i ==> #[trigger] r@[j]@ == v@[j]@,
        decreases v.len() - i,
    {
        r.push(v[i].clone());
        i += 1;
    }
    proof {
        assert(texts(r@) =~= texts(v@));
    }
    r
}

/// Whether the list holds the text.
pub fn list_contains(v: &Vec<String>, t: &str) -> (r: bool)
    ensures
        r == texts(v@).contains(t@),
{
    let mut i: usize = 0;
    while i < v.len()
        invariant
            0 <= i <= v.len(),
            forall|j: int| 0 <= j < i ==> #[trigger] texts(v@)[j] != t@,
        decreases v.len() - i,
    {
        if same_text(v[i].as_str(), t) {
            proof {
                assert(texts(v@)[i as int] == t@);
            }
            return true;
        }
        i += 1;
    }
    false
}

/// `s` without the run of `c` at its end.
pub open spec fn without_trailing(s: Seq<char>, c: char) -> Seq<char>
    decreases s.len(),
{
    if s.len() > 0 && s.last() == c {
        without_trailing(s.drop_last(), c)
    } else {
        s
    }
}

/// Drops the run of `c` at the end.
pub fn trim_end_matches(s: &str, c: char) -> (r: String)
    ensures
        r@ == without_trailing(s@, c),
{
    let v = chars_of(s);
    let mut n: usize = v.len();
    proof {
        assert(s@.take(n as int) =~= s@);
    }
    while n > 0 && v[n - 1] == c
        invariant
            0 <= n <= v.len(),
            v@ == s@,
            without_trailing(s@.take(n as int), c) == without_trailing(s@, c),
        decreases n,
    {
        proof {
            assert(s@.take(n as int).drop_last() =~= s@.take(n - 1));
        }
        n -= 1;
    }
    let r = string_of(&v, 0, n);
    proof {
        assert(r@ =~= s@.take(n as int));
    }
    r
}

/// What stands in front of the suffix `p`, where `s` ends in it.
pub fn strip_suffix(s: &str, p: &str) -> (r: Option<String>)
    ensures
        (match r {
            Some(t) => has_suffix(s@, p@) && t@ == s@.take(s@.len() - p@.len()),
            None => !has_suffix(s@, p@),
        }),
{
    if !ends_with(s, p) {
        return None;
    }
    let v = chars_of(s);
    let w = chars_of(p);
    let t = string_of(&v, 0, v.len() - w.len());
    proof {
        assert(t@ =~= s@.take(s@.len() - p@.len()));
    }
    Some(t)
}

/// `a` stands before `b` in the order of texts, or is the same text.
pub open spec fn text_le(a: Seq<char>, b: Seq<char>) -> bool
    decreases a.len(),
{
    if a.len() == 0 {
        true
    } else if b.len() == 0 {
        false
    } else {
        a[0] < b[0] || (a[0] == b[0] && text_le(a.skip(1), b.skip(1)))
    }
}

/// The texts stand in order.
pub open spec fn texts_sorted(s: Seq<Seq<char>>) -> bool {
    forall|i: int, j: int| 0 <= i < j < s.len() ==> text_le(#[trigger] s[i], #[trigger] s[j])
}

proof fn lemma_text_le_total(a: Seq<char>, b: Seq<char>)
    ensures
        text_le(a, b) || text_le(b, a),
    decreases a.len(),
{
    if a.len() > 0 && b.len() > 0 {
        lemma_text_le_total(a.skip(1), b.skip(1));
    }
}

proof fn lemma_text_le_transitive(a: Seq<char>, b: Seq<char>, c: Seq<char>)
    requires
        text_le(a, b),
        text_le(b, c),
    ensures
        text_le(a, c),
    decreases a.len(),
{
    if a.len() > 0 && a[0] == b[0] && b[0] == c[0] {
        lemma_text_le_transitive(a.skip(1), b.skip(1), c.skip(1));
    }
}

/// Texts that stand before each other are the same.
pub proof fn lemma_text_le_antisymmetric(a: Seq<char>, b: Seq<char>)
    requires
        text_le(a, b),
        text_le(b, a),
    ensures
        a == b,
    decreases a.len(),
{
    if a.len() > 0 && b.len() > 0 {
        lemma_text_le_antisymmetric(a.skip(1), b.skip(1));
        assert(a =~= seq![a[0]] + a.skip(1));
        assert(b =~= seq![b[0]] + b.skip(1));
    } else {
        assert(a =~= b);
    }
}

/// Sorted lists of the same texts are the same.
pub proof fn lemma_sorted_texts_unique(a: Seq<Seq<char>>, b: Seq<Seq<char>>)
    requires
        texts_sorted(a),
        texts_sorted(b),
        a.to_multiset() == b.to_multiset(),
    ensures
        a == b,
{
    let leq = |x: Seq<char>, y: Seq<char>| text_le(x, y);
    assert forall|x: Seq<char>| #[trigger] leq(x, x) by {
        lemma_text_le_total(x, x);
    }
    assert forall|x: Seq<char>, y: Seq<char>| #[trigger] leq(x, y) && #[trigger] leq(y, x) implies x == y by {
        lemma_text_le_antisymmetric(x, y);
    }
    assert forall|x: Seq<char>, y: Seq<char>, z: Seq<char>| #[trigger] leq(x, y) && #[trigger] leq(y, z) implies leq(x, z) by {
        lemma_text_le_transitive(x, y, z);
    }
    assert forall|x: Seq<char>, y: Seq<char>| #[trigger] leq(x, y) || #[trigger] leq(y, x) by {
        lemma_text_le_total(x, y);
    }
    assert(vstd::relations::total_ordering(leq));
    assert(vstd::relations::sorted_by(a, leq));
    assert(vstd::relations::sorted_by(b, leq));
    vstd::seq_lib::lemma_sorted_unique(a, b, leq);
}

/// Whether `a` stands before `b` or is the same text.
fn not_after(a: &str, b: &str) -> (r: bool)
    ensures
        r == text_le(a@, b@),
{
    let v = chars_of(a);
    let w = chars_of(b);
    let mut i: usize = 0;
    proof {
        assert(a@.skip(0) =~= a@);
        assert(b@.skip(0) =~= b@);
    }
    while i < v.len()
        invariant
            0 <= i <= v.len(),
            i <= w.len(),
            v@ == a@,
            w@ == b@,
            text_le(a@, b@) == text_le(a@.skip(i as int), b@.skip(i as int)),
        decreases v.len() - i,
    {
        if i >= w.len() {
            return false;
        }
        if v[i] != w[i] {
            return v[i] < w[i];
        }
        proof {
            assert(a@.skip(i as int).skip(1) =~= a@.skip(i + 1));
            assert(b@.skip(i as int).skip(1) =~= b@.skip(i + 1));
        }
        i += 1;
    }
    true
}

/// Puts a text into a sorted list.
fn insert_sorted(list: &mut Vec<String>, x: String)
    requires
        texts_sorted(texts(old(list)@)),
    ensures
        texts_sorted(texts(final(list)@)),
        texts(final(list)@).to_multiset() == texts(old(list)@).to_multiset().insert(x@),
{
    let ghost before = texts(list@);
    let mut k: usize = 0;
    while k < list.len() && not_after(list[k].as_str(), x.as_str())
        invariant
            0 <= k <= list.len(),
            before == texts(list@),
            forall|j: int| 0 <= j < k ==> text_le(#[trigger] before[j], x@),
        decreases list.len() - k,
    {
        k += 1;
    }
    let ghost y = x@;
    list.insert(k, x);
    proof {
        let after = texts(list@);
        assert(after =~= before.insert(k as int, y));
        assert forall|i: int, j: int| 0 <= i < j < after.len() implies text_le(
            #[trigger] after[i],
            #[trigger] after[j],
        ) by {
            if j == k {
                assert(after[i] == before[i]);
            } else if i == k {
                assert(after[j] == before[j - 1]);
                lemma_text_le_total(y, before[k as int]);
                if j - 1 > k {
                    assert(text_le(before[k as int], before[j - 1]));
                    lemma_text_le_transitive(y, before[k as int], before[j - 1]);
                }
            } else {
                let a = if i < k { i } else { i - 1 };
                let b = if j < k { j } else { j - 1 };
                assert(after[i] == before[a]);
                assert(after[j] == before[b]);
                assert(text_le(before[a], before[b]));
            }
        }
        assert(after.remove(k as int) =~= before);
        broadcast use vstd::seq_lib::group_to_multiset_ensures;

        assert(after[k as int] == y);
        assert(after.contains(y));
        assert(before.to_multiset() =~= after.to_multiset().remove(y));
        assert(after.to_multiset().count(y) > 0);
        assert(after.to_multiset() =~= before.to_multiset().insert(y));
    }
}

/// The texts in order.
pub fn sort_texts(v: Vec<String>) -> (r: Vec<String>)
    ensures
        texts_sorted(texts(r@)),
        texts(r@).to_multiset() == texts(v@).to_multiset(),
{
    let mut r: Vec<String> = Vec::new();
    let mut i: usize = 0;
    let ghost all = texts(v@);
    proof {
        assert(texts(r@) =~= all.take(0));
    }
    while i < v.len()
        invariant
            0 <= i <= v.len(),
            all == texts(v@),
            texts_sorted(texts(r@)),
            texts(r@).to_multiset() == all.take(i as int).to_multiset(),
        decreases v.len() - i,
    {
        insert_sorted(&mut r, v[i].clone());
        proof {
            broadcast use vstd::seq_lib::group_to_multiset_ensures;

            assert(all.take(i + 1) =~= all.take(i as int).push(v@[i as int]@));
        }
        i += 1;
    }
    proof {
        assert(all.take(i as int) =~= all);
    }
    r
}

/// Whether two lists hold the same texts in the same order.
pub fn same_texts(a: &Vec<String>, b: &Vec<String>) -> (r: bool)
    ensures
        r == (texts(a@) == texts(b@)),
{
    if a.len() != b.len() {
        proof {
            assert(texts(a@).len() != texts(b@).len());
        }
        return false;
    }
    let mut i: usize = 0;
    while i < a.len()
        invariant
            0 <= i <= a.len(),
            a.len() == b.len(),
            forall|j: int| 0 <= j < i ==> #[trigger] texts(a@)[j] == texts(b@)[j],
        decreases a.len() - i,
    {
        if !same_text(a[i].as_str(), b[i].as_str()) {
            proof {
                assert(texts(a@)[i as int] != texts(b@)[i as int]);
            }
            return false;
        }
        i += 1;
    }
    proof {
        assert(texts(a@) =~= texts(b@));
    }
    true
}

/// Whether two optional texts are the same.
pub fn same_opt_text(a: &Option<String>, b: &Option<String>) -> (r: bool)
    ensures
        r == (opt_text(*a) == opt_text(*b)),
{
    match (a, b) {
        (None, None) => true,
        (Some(x), Some(y)) => same_text(x.as_str(), y.as_str()),
        _ => false,
    }
}

/// What stands behind a separator is the last piece.
pub proof fn lemma_pieces_behind_separator(a: Seq<char>, b: Seq<char>, c: char)
    requires
        !b.contains(c),
    ensures
        pieces(a.push(c) + b, c) == pieces(a, c).push(b),
    decreases b.len(),
{
    let s = a.push(c) + b;
    if b.len() == 0 {
        assert(s =~= a.push(c));
        assert(a.push(c).drop_last() =~= a);
        assert(b =~= Seq::<char>::empty());
    } else {
        let f = b.drop_last();
        assert(b[b.len() - 1] != c);
        assert(!f.contains(c)) by {
            if f.contains(c) {
                let i = choose|i: int| 0 <= i < f.len() && f[i] == c;
                assert(b[i] == c);
            }
        }
        lemma_pieces_behind_separator(a, f, c);
        assert(s.drop_last() =~= a.push(c) + f);
        let p = pieces(a, c).push(f);
        assert(p.drop_last() =~= pieces(a, c));
        assert(f.push(b.last()) =~= b);
    }
}

proof fn lemma_pieces_without_separator(b: Seq<char>, c: char)
    requires
        !b.contains(c),
    ensures
        pieces(b, c) == seq![b],
    decreases b.len(),
{
    if b.len() == 0 {
        assert(b =~= Seq::<char>::empty());
    } else {
        let f = b.drop_last();
        assert(b[b.len() - 1] != c);
        assert(!f.contains(c)) by {
            if f.contains(c) {
                let i = choose|i: int| 0 <= i < f.len() && f[i] == c;
                assert(b[i] == c);
            }
        }
        lemma_pieces_without_separator(f, c);
        let p = seq![f];
        assert(p.drop_last() =~= Seq::<Seq<char>>::empty());
        assert(f.push(b.last()) =~= b);
        assert(pieces(b, c) =~= seq![b]);
    }
}

/// Splitting undoes joining with a separator that stands in no part.
pub proof fn lemma_pieces_of_joined(parts: Seq<Seq<char>>, c: char)
    requires
        parts.len() > 0,
        forall|i: int| 0 <= i < parts.len() ==> !(#[trigger] parts[i]).contains(c),
    ensures
        pieces(joined(parts, seq![c]), c) == parts,
    decreases parts.len(),
{
    if parts.len() == 1 {
        assert(!parts[0].contains(c));
        lemma_pieces_without_separator(parts[0], c);
        assert(parts =~= seq![parts[0]]);
    } else {
        let f = parts.drop_last();
        assert forall|i: int| 0 <= i < f.len() implies !(#[trigger] f[i]).contains(c) by {
            assert(f[i] == parts[i]);
        }
        lemma_pieces_of_joined(f, c);
        let a = joined(f, seq![c]);
        assert(!parts[parts.len() - 1].contains(c));
        lemma_pieces_behind_separator(a, parts.last(), c);
        assert(a + seq![c] + parts.last() =~= a.push(c) + parts.last());
        assert(f.push(parts.last()) =~= parts);
    }
}

/// A text without white space, and not empty.
pub open spec fn is_word(s: Seq<char>) -> bool {
    s.len() > 0 && forall|i: int| 0 <= i < s.len() ==> !is_white(#[trigger] s[i])
}

/// Writing words on lines of their own and reading the lines gives the words.
pub proof fn lemma_lines_of_words(parts: Seq<Seq<char>>)
    requires
        forall|i: int| 0 <= i < parts.len() ==> is_word(#[trigger] parts[i]),
    ensures
        text_lines(joined(parts, seq!['\n'])) == parts,
{
    let s = joined(parts, seq!['\n']);
    if parts.len() == 0 {
        assert(pieces(s, '\n') =~= seq![Seq::<char>::empty()]);
        assert(text_lines(s) =~= parts);
    } else {
        assert forall|i: int| 0 <= i < parts.len() implies !(#[trigger] parts[i]).contains('\n') by {
            assert(is_word(parts[i]));
            if parts[i].contains('\n') {
                let j = choose|j: int| 0 <= j < parts[i].len() && parts[i][j] == '\n';
                assert(!is_white(parts[i][j]));
            }
        }
        lemma_pieces_of_joined(parts, '\n');
        assert(is_word(parts[parts.len() - 1]));
        let ended = parts.drop_last().map_values(|l: Seq<char>| without_cr(l));
        assert forall|i: int| 0 <= i < ended.len() implies #[trigger] ended[i] == parts[i] by {
            assert(is_word(parts[i]));
            assert(!is_white(parts[i][parts[i].len() - 1]));
        }
        assert(text_lines(s) =~= parts);
    }
}

/// A word has no white space around it.
pub proof fn lemma_trimmed_word(s: Seq<char>)
    requires
        is_word(s),
    ensures
        trimmed(s) == s,
{
    assert(!is_white(s[0]));
    assert(!is_white(s[s.len() - 1]));
}

/// Each part stands in what the parts make joined.
pub proof fn lemma_parts_stand_in_joined(parts: Seq<Seq<char>>, sep: Seq<char>, i: int)
    requires
        0 <= i < parts.len(),
    ensures
        has_infix(joined(parts, sep), parts[i]),
    decreases parts.len(),
{
    let s = joined(parts, sep);
    if parts.len() == 1 {
        assert(s.subrange(0, parts[0].len() as int) =~= parts[0]);
        assert(infix_at(s, parts[i], 0));
    } else if i == parts.len() - 1 {
        let at = (joined(parts.drop_last(), sep).len() + sep.len()) as int;
        assert(s.subrange(at, at + parts[i].len()) =~= parts[i]);
        assert(infix_at(s, parts[i], at));
    } else {
        let f = parts.drop_last();
        lemma_parts_stand_in_joined(f, sep, i);
        let t = joined(f, sep);
        let at = choose|at: int| 0 <= at && #[trigger] infix_at(t, f[i], at);
        assert(s.subrange(at, at + parts[i].len()) =~= t.subrange(at, at + parts[i].len()));
        assert(infix_at(s, parts[i], at));
    }
}

/// White space only.
pub open spec fn all_white(s: Seq<char>) -> bool {
    forall|i: int| 0 <= i < s.len() ==> is_white(#[trigger] s[i])
}

proof fn lemma_trim_start_cuts(s: Seq<char>) -> (n: int)
    ensures
        0 <= n <= s.len(),
        all_white(s.take(n)),
        trim_start(s) == s.skip(n),
        n < s.len() ==> !is_white(s[n]),
    decreases s.len(),
{
    if s.len() > 0 && is_white(s[0]) {
        let m = lemma_trim_start_cuts(s.skip(1));
        assert(s.skip(1).skip(m) =~= s.skip(m + 1));
        assert forall|i: int| 0 <= i < m + 1 implies is_white(#[trigger] s.take(m + 1)[i]) by {
            if i > 0 {
                assert(is_white(s.skip(1).take(m)[i - 1]));
            }
        }
        m + 1
    } else {
        assert(s.skip(0) =~= s);
        0
    }
}

proof fn lemma_trim_end_cuts(s: Seq<char>) -> (n: int)
    ensures
        0 <= n <= s.len(),
        all_white(s.skip(n)),
        trim_end(s) == s.take(n),
        n > 0 ==> !is_white(s[n - 1]),
    decreases s.len(),
{
    if s.len() > 0 && is_white(s.last()) {
        let f = s.drop_last();
        let m = lemma_trim_end_cuts(f);
        assert(f.take(m) =~= s.take(m));
        assert forall|i: int| 0 <= i < s.len() - m implies is_white(#[trigger] s.skip(m)[i]) by {
            if i < f.len() - m {
                assert(is_white(f.skip(m)[i]));
            }
        }
        m
    } else {
        assert(s.take(s.len() as int) =~= s);
        s.len() as int
    }
}

/// What trimming leaves stands in the text, with only white space around it, and has none at
/// either end.
pub proof fn lemma_trimmed(s: Seq<char>) -> (at: int)
    ensures
        0 <= at,
        at + trimmed(s).len() <= s.len(),
        s.subrange(at, at + trimmed(s).len()) == trimmed(s),
        all_white(s.take(at)),
        all_white(s.skip(at + trimmed(s).len())),
        trimmed(s).len() > 0 ==> !is_white(trimmed(s)[0]) && !is_white(trimmed(s).last()),
{
    let lo = lemma_trim_start_cuts(s);
    let t = s.skip(lo);
    let n = lemma_trim_end_cuts(t);
    assert(t.take(n) =~= s.subrange(lo, lo + n));
    assert(s.skip(lo + n) =~= t.skip(n));
    if n > 0 {
        assert(trimmed(s)[0] == s[lo]);
    }
    lo
}

/// The last index is one: `c` stands there, and nowhere behind it.
pub proof fn lemma_last_index_is_one(s: Seq<char>, c: char)
    ensures
        -1 <= last_index(s, c) < s.len(),
        last_index(s, c) >= 0 ==> s[last_index(s, c)] == c,
        forall|j: int| last_index(s, c) < j < s.len() ==> #[trigger] s[j] != c,
    decreases s.len(),
{
    if s.len() > 0 && s.last() != c {
        let f = s.drop_last();
        lemma_last_index_is_one(f, c);
        assert forall|j: int| last_index(s, c) < j < s.len() implies #[trigger] s[j] != c by {
            if j < f.len() {
                assert(f[j] != c);
            }
        }
    }
}

// ── What the operations mean ────────────────────────────────────────────────

/// The ASCII white space is the blank and the control characters from tab to carriage return;
/// beyond ASCII it is what Unicode lists.
pub proof fn law_which_characters_are_white_space(c: char, r: bool)
    requires
        call_ensures(is_whitespace, (c,), r),
    ensures
        (c as u32) < 0x80 ==> (r <==> c == ' ' || '\t' <= c <= '\r'),
        (c as u32) >= 0x80 ==> (r <==> {
            let n = c as u32;
            n == 0x85 || n == 0xa0 || n == 0x1680 || 0x2000 <= n <= 0x200a || 0x2028 <= n <= 0x2029
                || n == 0x202f || n == 0x205f || n == 0x3000
        }),
{
}

/// Trimming cuts off white space alone, and all of it at either end.
pub proof fn law_trimming_cuts_white_space(s: &str, r: String) -> (at: int)
    requires
        call_ensures(trim, (s,), r),
    ensures
        0 <= at,
        at + r@.len() <= s@.len(),
        s@.subrange(at, at + r@.len()) == r@,
        forall|i: int| 0 <= i < at ==> is_white(#[trigger] s@[i]),
        forall|i: int| at + r@.len() <= i < s@.len() ==> is_white(#[trigger] s@[i]),
        r@.len() > 0 ==> !is_white(r@[0]) && !is_white(r@.last()),
{
    let at = lemma_trimmed(s@);
    let t = s@;
    assert forall|i: int| 0 <= i < at implies is_white(#[trigger] t[i]) by {
        assert(t.take(at)[i] == t[i]);
    }
    assert forall|i: int| at + r@.len() <= i < t.len() implies is_white(#[trigger] t[i]) by {
        let n = at + r@.len();
        assert(t.skip(n)[i - n] == t[i]);
    }
    at
}

/// A text starts with another just where it is that text with something behind it, which is
/// what stripping leaves.
pub proof fn law_prefixes(s: &str, p: &str, rest: Seq<char>, r: bool, t: Option<String>)
    requires
        call_ensures(starts_with, (s, p), r),
        call_ensures(strip_prefix, (s, p), t),
    ensures
        s@ == p@ + rest ==> r && (t matches Some(x) && x@ == rest),
        t matches Some(x) ==> s@ == p@ + x@,
        r <==> t is Some,
{
    if s@ == p@ + rest {
        assert(s@.take(p@.len() as int) =~= p@);
        assert(s@.skip(p@.len() as int) =~= rest);
    }
    if t is Some {
        assert(s@ =~= s@.take(p@.len() as int) + s@.skip(p@.len() as int));
    }
}

/// A text ends with another just where it is that text with something in front of it, which is
/// what stripping leaves.
pub proof fn law_suffixes(s: &str, p: &str, rest: Seq<char>, r: bool, t: Option<String>)
    requires
        call_ensures(ends_with, (s, p), r),
        call_ensures(strip_suffix, (s, p), t),
    ensures
        s@ == rest + p@ ==> r && (t matches Some(x) && x@ == rest),
        t matches Some(x) ==> s@ == x@ + p@,
        r <==> t is Some,
{
    let n = s@.len() - p@.len();
    if s@ == rest + p@ {
        assert(s@.skip(n) =~= p@);
        assert(s@.take(n) =~= rest);
    }
    if t is Some {
        assert(s@ =~= s@.take(n) + s@.skip(n));
    }
}

/// A text stands in another just where the other is made of it and what is around it.
pub proof fn law_infixes(s: &str, p: &str, a: Seq<char>, b: Seq<char>, r: bool)
    requires
        call_ensures(contains_text, (s, p), r),
    ensures
        s@ == a + p@ + b ==> r,
        r ==> exists|i: int|
            0 <= i && i + p@.len() <= s@.len() && s@ == s@.take(i) + p@ + #[trigger] s@.skip(i + p@.len()),
{
    if s@ == a + p@ + b {
        assert(s@.subrange(a.len() as int, a.len() as int + p@.len()) =~= p@);
        assert(infix_at(s@, p@, a.len() as int));
    }
    if r {
        let i = choose|i: int| 0 <= i && #[trigger] infix_at(s@, p@, i);
        assert(s@ =~= s@.take(i) + s@.subrange(i, i + p@.len()) + s@.skip(i + p@.len()));
    }
}

/// The pieces hold no separator and joined by it make the text.
pub proof fn lemma_joined_pieces(s: Seq<char>, c: char)
    ensures
        pieces(s, c).len() > 0,
        joined(pieces(s, c), seq![c]) == s,
        forall|i: int| 0 <= i < pieces(s, c).len() ==> !(#[trigger] pieces(s, c)[i]).contains(c),
    decreases s.len(),
{
    let q = pieces(s, c);
    if s.len() == 0 {
        assert(q[0] =~= Seq::<char>::empty());
        assert(joined(q, seq![c]) =~= s);
    } else {
        let f = s.drop_last();
        let x = s.last();
        lemma_joined_pieces(f, c);
        let p = pieces(f, c);
        assert(q.drop_last() =~= if x == c { p } else { p.drop_last() });
        if x == c {
            assert(joined(q, seq![c]) =~= f + seq![c]);
            assert(f + seq![c] =~= s);
        } else {
            assert(q.last() == p.last().push(x));
            if p.len() == 1 {
                assert(joined(q, seq![c]) =~= f.push(x));
            } else {
                assert(joined(q, seq![c]) =~= joined(p, seq![c]).push(x));
            }
            assert(f.push(x) =~= s);
        }
        assert forall|i: int| 0 <= i < q.len() implies !(#[trigger] q[i]).contains(c) by {
            if i < q.len() - 1 {
                assert(q[i] == p[i]);
            } else if x != c {
                let l = p[p.len() - 1];
                assert(!l.contains(c));
                if q[i].contains(c) {
                    let k = choose|k: int| 0 <= k < q[i].len() && q[i][k] == c;
                    assert(l[k] == c);
                }
            }
        }
    }
}

/// The pieces hold no separator, and joined by it they are the text again.
pub proof fn law_splitting_is_undone_by_joining(s: &str, c: char, r: Vec<String>, sep: &str, back: String)
    requires
        call_ensures(split_on, (s, c), r),
        sep@ == seq![c],
        call_ensures(join, (&r, sep), back),
    ensures
        r@.len() > 0,
        back@ == s@,
        forall|i: int| 0 <= i < r@.len() ==> !(#[trigger] r@[i])@.contains(c),
{
    lemma_joined_pieces(s@, c);
    assert forall|i: int| 0 <= i < r@.len() implies !(#[trigger] r@[i])@.contains(c) by {
        assert(texts(r@)[i] == r@[i]@);
    }
}

/// Joining puts the separator between the parts and nowhere else.
pub proof fn law_joining_puts_separators_between(
    parts: &Vec<String>,
    more: &Vec<String>,
    last: String,
    sep: &str,
    r: String,
    all: String,
)
    requires
        call_ensures(join, (parts, sep), r),
        call_ensures(join, (more, sep), all),
        more@ == parts@.push(last),
    ensures
        parts@.len() == 0 ==> r@.len() == 0 && all@ == last@,
        parts@.len() > 0 ==> all@ == r@ + sep@ + last@,
{
    assert(texts(more@).drop_last() =~= texts(parts@));
    assert(texts(more@).last() == last@);
    assert(texts(parts@).len() == parts@.len());
    if parts@.len() == 0 {
        assert(texts(more@)[0] == last@);
    }
}

proof fn lemma_pieces_before_separator(a: Seq<char>, b: Seq<char>, c: char)
    requires
        !a.contains(c),
    ensures
        pieces(a.push(c) + b, c) == seq![a] + pieces(b, c),
        pieces(b, c).len() > 0,
    decreases b.len(),
{
    let s = a.push(c) + b;
    if b.len() == 0 {
        assert(s =~= a.push(c));
        assert(a.push(c).drop_last() =~= a);
        lemma_pieces_without_separator(a, c);
        assert(pieces(s, c) =~= seq![a] + pieces(b, c));
    } else {
        let f = b.drop_last();
        lemma_pieces_before_separator(a, f, c);
        assert(s.drop_last() =~= a.push(c) + f);
        assert(s.last() == b.last());
        let p = seq![a] + pieces(f, c);
        assert(p.last() == pieces(f, c).last());
        assert(p.drop_last() =~= seq![a] + pieces(f, c).drop_last());
        assert(pieces(s, c) =~= seq![a] + pieces(b, c));
    }
}

/// A line ends at its line feed, without a carriage return right before it; what follows is read
/// as if it stood alone.  The last line may lack its line feed, and no text has no lines.
pub proof fn law_lines_end_at_line_feeds(
    s: &str,
    a: Seq<char>,
    rest: &str,
    r: Vec<String>,
    others: Vec<String>,
)
    requires
        !a.contains('\n'),
        call_ensures(lines, (s,), r),
        call_ensures(lines, (rest,), others),
    ensures
        s@ == a.push('\n') + rest@ && (a.len() == 0 || a.last() != '\r') ==> texts(r@) == seq![a]
            + texts(others@),
        s@ == a.push('\n') + rest@ && a.len() > 0 && a.last() == '\r' ==> texts(r@) == seq![
            a.drop_last(),
        ] + texts(others@),
        s@ == a && a.len() > 0 ==> texts(r@) == seq![a],
        s@.len() == 0 ==> r@.len() == 0,
{
    let cut = |l: Seq<char>| without_cr(l);
    assert(texts(r@).len() == r@.len());
    if s@ == a.push('\n') + rest@ {
        lemma_pieces_before_separator(a, rest@, '\n');
        let q = pieces(rest@, '\n');
        let p = seq![a] + q;
        assert(p.last() == q.last());
        assert(p.drop_last() =~= seq![a] + q.drop_last());
        assert(p.drop_last().map_values(cut) =~= seq![without_cr(a)] + q.drop_last().map_values(cut));
        assert(text_lines(s@) =~= seq![without_cr(a)] + text_lines(rest@));
    }
    if s@ == a {
        lemma_pieces_without_separator(a, '\n');
        assert(seq![a].drop_last() =~= Seq::<Seq<char>>::empty());
        assert(seq![a].drop_last().map_values(cut) =~= Seq::<Seq<char>>::empty());
        if a.len() > 0 {
            assert(text_lines(s@) =~= seq![a]);
        }
    }
    if s@.len() == 0 {
        assert(pieces(s@, '\n').drop_last() =~= Seq::<Seq<char>>::empty());
        assert(text_lines(s@).len() == 0);
    }
}

proof fn lemma_open_run(s: Seq<char>)
    ensures
        word_runs(s).1 ==> word_runs(s).0.len() > 0,
    decreases s.len(),
{
    if s.len() > 0 {
        lemma_open_run(s.drop_last());
    }
}

proof fn lemma_words_around_white(a: Seq<char>, w: char, b: Seq<char>)
    requires
        is_white(w),
    ensures
        word_runs(a.push(w) + b).0 == words(a) + words(b),
        word_runs(a.push(w) + b).1 == word_runs(b).1,
    decreases b.len(),
{
    let s = a.push(w) + b;
    if b.len() == 0 {
        assert(s =~= a.push(w));
        assert(a.push(w).drop_last() =~= a);
        assert(words(a) + words(b) =~= words(a));
    } else {
        let f = b.drop_last();
        lemma_words_around_white(a, w, f);
        lemma_open_run(f);
        assert(s.drop_last() =~= a.push(w) + f);
        assert(s.last() == b.last());
        let p = words(a) + words(f);
        if word_runs(f).1 {
            assert(p.last() == words(f).last());
            assert(p.drop_last() =~= words(a) + words(f).drop_last());
        }
        assert(word_runs(s).0 =~= words(a) + words(b));
    }
}

proof fn lemma_words_of_word(s: Seq<char>)
    requires
        is_word(s),
    ensures
        word_runs(s) == (seq![s], true),
    decreases s.len(),
{
    let f = s.drop_last();
    assert(!is_white(s[s.len() - 1]));
    if f.len() == 0 {
        assert(f =~= Seq::<char>::empty());
        assert(s =~= seq![s.last()]);
        assert(word_runs(f) == (Seq::<Seq<char>>::empty(), false));
        assert(Seq::<Seq<char>>::empty().push(s) =~= seq![s]);
        assert(word_runs(s).0 =~= seq![s]);
    } else {
        assert forall|i: int| 0 <= i < f.len() implies !is_white(#[trigger] f[i]) by {
            assert(!is_white(s[i]));
        }
        lemma_words_of_word(f);
        assert(f.push(s.last()) =~= s);
        assert(seq![f].drop_last().push(s) =~= seq![s]);
        assert(word_runs(s).0 =~= seq![s]);
    }
}

/// White space parts the words before it from those behind it and is in none; what holds none is
/// one word, and no text has no words.
pub proof fn law_words_stand_between_white_space(
    s: &str,
    a: &str,
    w: char,
    b: &str,
    r: Vec<String>,
    before: Vec<String>,
    behind: Vec<String>,
)
    requires
        call_ensures(split_whitespace, (s,), r),
        call_ensures(split_whitespace, (a,), before),
        call_ensures(split_whitespace, (b,), behind),
    ensures
        is_white(w) && s@ == a@.push(w) + b@ ==> texts(r@) == texts(before@) + texts(behind@),
        is_word(s@) ==> texts(r@) == seq![s@],
        s@.len() == 0 ==> r@.len() == 0,
{
    assert(texts(r@).len() == r@.len());
    if is_white(w) && s@ == a@.push(w) + b@ {
        lemma_words_around_white(a@, w, b@);
    }
    if is_word(s@) {
        lemma_words_of_word(s@);
    }
}

proof fn lemma_lower_char(c: char)
    ensures
        'A' <= c <= 'Z' ==> lower_char(c) as u32 == c as u32 + 32,
        !('A' <= c <= 'Z') ==> lower_char(c) == c,
{
}

/// The capital letters of ASCII become the small ones, and every other character stays.
pub proof fn law_only_ascii_capitals_change(s: &str, r: String, i: int)
    requires
        call_ensures(to_ascii_lowercase, (s,), r),
        0 <= i < s@.len(),
    ensures
        r@.len() == s@.len(),
        'A' <= s@[i] <= 'Z' ==> r@[i] as u32 == s@[i] as u32 + 32,
        !('A' <= s@[i] <= 'Z') ==> r@[i] == s@[i],
{
    lemma_lower_char(s@[i]);
}

/// A number is written digit by digit, the last digit being what dividing by ten leaves.
pub proof fn law_numbers_are_written_digit_by_digit(n: u64, r: String, tens: u64, front: String)
    requires
        call_ensures(decimal_of, (n,), r),
        tens == n / 10,
        call_ensures(decimal_of, (tens,), front),
    ensures
        r@.len() > 0,
        r@.last() as u32 == 0x30 + n % 10,
        n < 10 ==> r@.len() == 1,
        n >= 10 ==> r@.drop_last() == front@,
{
    if n >= 10 {
        assert(r@.drop_last() =~= front@);
    }
}

/// All of them are digits.
pub open spec fn all_digits(s: Seq<char>) -> bool {
    forall|i: int| 0 <= i < s.len() ==> is_digit(#[trigger] s[i])
}

/// Of a text of digits each further digit makes ten times as much and its own value; one plus
/// sign in front does not matter; anything else, nothing at all and what is too large are refused.
pub proof fn law_numbers_are_read_digit_by_digit(
    s: &str,
    max: u64,
    r: Option<u64>,
    d: char,
    longer: &str,
    l: Option<u64>,
    signed: &str,
    g: Option<u64>,
)
    requires
        max <= 0xffff_ffff,
        call_ensures(parse_unsigned, (s, max), r),
        longer@ == s@.push(d),
        call_ensures(parse_unsigned, (longer, max), l),
        signed@ == seq!['+'] + s@,
        call_ensures(parse_unsigned, (signed, max), g),
    ensures
        r matches Some(n) ==> n <= max,
        s@.len() == 0 ==> r is None && g is None,
        s@.len() == 0 && '0' <= d <= '9' && d as u32 - 0x30 <= max ==> l == Some(
            (d as u32 - 0x30) as u64,
        ),
        r matches Some(n) ==> ('0' <= d <= '9' && 10 * n + (d as u32 - 0x30) <= max ==> l == Some(
            (10 * n + (d as u32 - 0x30)) as u64,
        )),
        r matches Some(n) ==> ('0' <= d <= '9' && 10 * n + (d as u32 - 0x30) > max ==> l is None),
        s@.len() > 0 && !('0' <= d <= '9') ==> l is None,
        s@.len() > 0 && s@[0] != '+' ==> g == r,
        s@.len() > 0 && s@[0] == '+' ==> g is None,
        (exists|i: int| 1 <= i < s@.len() && !('0' <= #[trigger] s@[i] <= '9')) ==> r is None,
{
    let t = without_plus(s@);
    let u = without_plus(longer@);
    if s@.len() > 0 {
        assert(longer@[0] == s@[0]);
        assert(u =~= t.push(d));
    } else {
        assert(s@ =~= Seq::<char>::empty());
        assert(longer@ =~= seq![d]);
        if d != '+' {
            assert(u.drop_last() =~= Seq::<char>::empty());
        }
    }
    if u.len() > 0 && (s@.len() > 0 || d != '+') {
        assert(u.last() == d);
        assert(u.drop_last() =~= t);
        assert(digits_value(u) == digits_value(t) * 10 + (d as u32 - '0' as u32) as nat);
        assert(u[u.len() - 1] == d);
        if r is Some && '0' <= d <= '9' {
            assert forall|i: int| 0 <= i < u.len() implies is_digit(#[trigger] u[i]) by {
                if i < t.len() {
                    assert(is_digit(t[i]));
                }
            }
        }
    }
    let w = without_plus(signed@);
    assert(w =~= s@);
    if s@.len() > 0 && s@[0] == '+' {
        assert(!is_digit(w[0]));
    }
    if exists|i: int| 1 <= i < s@.len() && !('0' <= #[trigger] s@[i] <= '9') {
        let i = choose|i: int| 1 <= i < s@.len() && !('0' <= #[trigger] s@[i] <= '9');
        if s@[0] == '+' {
            assert(t[i - 1] == s@[i]);
            assert(!is_digit(t[i - 1]));
        } else {
            assert(!is_digit(t[i]));
        }
    }
}

/// What is found is the first or the last place of the character; where nothing is found it
/// stands nowhere.
pub proof fn law_where_characters_are_found(v: &Vec<char>, c: char, first: usize, last: Option<usize>)
    requires
        call_ensures(index_of, (v, c), first),
        call_ensures(last_index_of, (v, c), last),
    ensures
        first < v@.len() ==> v@[first as int] == c,
        first <= v@.len(),
        forall|j: int| 0 <= j < first ==> #[trigger] v@[j] != c,
        last matches Some(i) ==> i < v@.len() && v@[i as int] == c && forall|j: int|
            i < j < v@.len() ==> #[trigger] v@[j] != c,
        last is None <==> first == v@.len(),
{
    lemma_last_index_is_one(v@, c);
    if last is None && first < v@.len() {
        assert(v@[first as int] != c);
    }
}

/// The run of the character at the end goes, and nothing else.
pub proof fn law_the_run_at_the_end_is_cut_off(s: &str, c: char, r: String)
    requires
        call_ensures(trim_end_matches, (s, c), r),
    ensures
        r@.len() <= s@.len(),
        r@ == s@.take(r@.len() as int),
        forall|i: int| r@.len() <= i < s@.len() ==> #[trigger] s@[i] == c,
        r@.len() > 0 ==> r@.last() != c,
{
    lemma_run_is_cut_off(s@, c);
}

proof fn lemma_run_is_cut_off(s: Seq<char>, c: char)
    ensures
        without_trailing(s, c).len() <= s.len(),
        without_trailing(s, c) == s.take(without_trailing(s, c).len() as int),
        forall|i: int| without_trailing(s, c).len() <= i < s.len() ==> #[trigger] s[i] == c,
        without_trailing(s, c).len() > 0 ==> without_trailing(s, c).last() != c,
    decreases s.len(),
{
    if s.len() > 0 && s.last() == c {
        let f = s.drop_last();
        lemma_run_is_cut_off(f, c);
        let n = without_trailing(s, c).len() as int;
        assert(f.take(n) =~= s.take(n));
        assert forall|i: int| n <= i < s.len() implies #[trigger] s[i] == c by {
            if i < f.len() {
                assert(f[i] == c);
            }
        }
    } else {
        assert(s.take(s.len() as int) =~= s);
    }
}

/// Texts are the same where all their characters are, lists where all their texts are, and
/// optional ones where both are there and the same or both are not there.
pub proof fn law_when_texts_are_the_same(
    a: &str,
    b: &str,
    r: bool,
    x: &Option<String>,
    y: &Option<String>,
    o: bool,
    v: &Vec<String>,
    w: &Vec<String>,
    l: bool,
)
    requires
        call_ensures(same_text, (a, b), r),
        call_ensures(same_opt_text, (x, y), o),
        call_ensures(same_texts, (v, w), l),
    ensures
        r <==> a@.len() == b@.len() && forall|i: int| 0 <= i < a@.len() ==> #[trigger] a@[i] == b@[i],
        *x is None ==> (o <==> *y is None),
        *y is None ==> (o <==> *x is None),
        *x is Some && *y is Some ==> (o <==> x->0@ == y->0@),
        l <==> v@.len() == w@.len() && forall|i: int|
            0 <= i < v@.len() ==> #[trigger] v@[i]@ == w@[i]@,
{
    if a@.len() == b@.len() && forall|i: int| 0 <= i < a@.len() ==> #[trigger] a@[i] == b@[i] {
        assert(a@ =~= b@);
    }
    let s = texts(v@);
    let t = texts(w@);
    if l {
        assert(s.len() == t.len());
        assert forall|i: int| 0 <= i < v@.len() implies #[trigger] v@[i]@ == w@[i]@ by {
            assert(s[i] == t[i]);
        }
    }
    if v@.len() == w@.len() && forall|i: int| 0 <= i < v@.len() ==> #[trigger] v@[i]@ == w@[i]@ {
        assert forall|i: int| 0 <= i < s.len() implies s[i] == t[i] by {
            assert(v@[i]@ == w@[i]@);
        }
        assert(s =~= t);
    }
}

/// A list holds a text just where one of its entries is that text; a copy has the same entries in
/// the same places.
pub proof fn law_what_lists_hold(v: &Vec<String>, t: &str, r: bool, copy: Vec<String>, i: int)
    requires
        call_ensures(list_contains, (v, t), r),
        call_ensures(copy_texts, (v,), copy),
    ensures
        0 <= i < v@.len() && v@[i]@ == t@ ==> r,
        r ==> exists|k: int| 0 <= k < v@.len() && #[trigger] v@[k]@ == t@,
        copy@.len() == v@.len(),
        0 <= i < v@.len() ==> copy@[i]@ == v@[i]@,
{
    if 0 <= i < v@.len() {
        assert(texts(v@)[i] == v@[i]@);
        assert(texts(copy@)[i] == copy@[i]@);
    }
    if r {
        let k = choose|k: int| 0 <= k < texts(v@).len() && texts(v@)[k] == t@;
        assert(v@[k]@ == t@);
    }
}

proof fn lemma_text_le_is_by_characters(a: Seq<char>, b: Seq<char>) -> (k: int)
    requires
        text_le(a, b),
    ensures
        0 <= k <= a.len(),
        k <= b.len(),
        a.take(k) == b.take(k),
        k == a.len() || (k < b.len() && a[k] < b[k]),
    decreases a.len(),
{
    if a.len() == 0 || a[0] < b[0] {
        assert(a.take(0) =~= b.take(0));
        0
    } else {
        let k = lemma_text_le_is_by_characters(a.skip(1), b.skip(1));
        assert forall|i: int| 0 <= i < k + 1 implies a[i] == b[i] by {
            if i > 0 {
                assert(a.skip(1).take(k)[i - 1] == b.skip(1).take(k)[i - 1]);
            }
        }
        assert(a.take(k + 1) =~= b.take(k + 1));
        k + 1
    }
}

/// Sorting loses nothing and adds nothing; of two texts the one that ends first, or has the
/// smaller character where they first differ, comes first.
pub proof fn law_texts_are_sorted_by_characters(v: Vec<String>, r: Vec<String>, i: int, j: int) -> (k: int)
    requires
        call_ensures(sort_texts, (v,), r),
        0 <= i < j < r@.len(),
    ensures
        texts(r@).to_multiset() == texts(v@).to_multiset(),
        0 <= k <= r@[i]@.len(),
        k <= r@[j]@.len(),
        r@[i]@.take(k) == r@[j]@.take(k),
        k == r@[i]@.len() || (k < r@[j]@.len() && r@[i]@[k] < r@[j]@[k]),
{
    assert(text_le(texts(r@)[i], texts(r@)[j]));
    lemma_text_le_is_by_characters(r@[i]@, r@[j]@)
}

/// A text is taken apart into its characters and put together from them, whole or in part.
pub proof fn law_texts_are_made_of_characters(
    s: &str,
    v: Vec<char>,
    from: usize,
    to: usize,
    part: String,
    copy: String,
)
    requires
        call_ensures(chars_of, (s,), v),
        from <= to <= v@.len(),
        call_ensures(string_of, (&v, from, to), part),
        call_ensures(copy_of, (s,), copy),
    ensures
        v@.len() == s@.len(),
        part@.len() == to - from,
        forall|i: int| 0 <= i < to - from ==> #[trigger] part@[i] == s@[from + i],
        copy@ == s@,
{
}

}
