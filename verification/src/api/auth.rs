//! The API token and the check of the `Authorization` header.
use vstd::prelude::*;
use vstd::string::*;
use vstd::utf8::{encode_utf8, is_ascii_chars};
use crate::net::hex_digit_char;
use crate::net::hex_char;
use crate::text::{chars_of, strip_prefix, trim};
use crate::text::{is_word, lemma_trimmed_word, opt_text, trimmed};

verus! {

/// Number of random bytes in a token.
pub const TOKEN_BYTES: usize = 32;

/// Number of hexadecimal digits in a token.
pub const TOKEN_HEX_LEN: usize = 64;

/// Errors of token operations.
#[derive(Debug)]
pub enum TokenError {
    /// The token file could not be read or written.
    Io(String),
    /// The operating system gave no random bytes.
    Rng(String),
}

/// The message shown for an error.
pub open spec fn token_error_text(e: TokenError) -> Seq<char> {
    match e {
        TokenError::Io(s) => "token file I/O: "@ + s@,
        TokenError::Rng(s) => "OsRng failed: "@ + s@,
    }
}

impl TokenError {
    /// The message shown for the error.
    pub fn message(&self) -> (r: String)
        ensures
            r@ == token_error_text(*self),
    {
        match self {
            TokenError::Io(s) => "token file I/O: ".to_owned().concat(s.as_str()),
            TokenError::Rng(s) => "OsRng failed: ".to_owned().concat(s.as_str()),
        }
    }
}

/// A lower-case hexadecimal digit.
pub open spec fn is_lower_hex(c: char) -> bool {
    '0' <= c <= '9' || 'a' <= c <= 'f'
}

/// A well-formed token: exactly [`TOKEN_HEX_LEN`] lower-case hexadecimal digits.
pub open spec fn valid_token(s: Seq<char>) -> bool {
    s.len() == TOKEN_HEX_LEN && forall|i: int| 0 <= i < s.len() ==> is_lower_hex(#[trigger] s[i])
}

/// Whether `s` is a well-formed token.
pub fn is_valid_token(s: &str) -> (r: bool)
    ensures
        r == valid_token(s@),
{
    let v = chars_of(s);
    if v.len() != TOKEN_HEX_LEN {
        return false;
    }
    let mut i: usize = 0;
    while i < v.len()
        invariant
            0 <= i <= v.len(),
            v@ == s@,
            forall|j: int| 0 <= j < i ==> is_lower_hex(#[trigger] s@[j]),
        decreases v.len() - i,
    {
        let c = v[i];
        if !(('0' <= c && c <= '9') || ('a' <= c && c <= 'f')) {
            proof {
                assert(!is_lower_hex(s@[i as int]));
            }
            return false;
        }
        i += 1;
    }
    true
}

/// Each byte as two lower-case hexadecimal digits.
pub open spec fn hex_pairs(b: Seq<u8>) -> Seq<char>
    decreases b.len(),
{
    if b.len() == 0 {
        Seq::<char>::empty()
    } else {
        hex_pairs(b.drop_last()).push(hex_char(b.last() as nat / 16)).push(
            hex_char(b.last() as nat % 16),
        )
    }
}

/// The bytes in lower-case hexadecimal, two digits each.
pub fn encode(bytes: &[u8]) -> (r: String)
    ensures
        r@ == hex_pairs(bytes@),
{
    let mut r = String::new();
    let mut i: usize = 0;
    while i < bytes.len()
        invariant
            0 <= i <= bytes.len(),
            r@ == hex_pairs(bytes@.take(i as int)),
        decreases bytes.len() - i,
    {
        let b = bytes[i];
        proof {
            assert(bytes@.take(i + 1).drop_last() =~= bytes@.take(i as int));
            assert(bytes@.take(i + 1).last() == b);
        }
        r.push(hex_digit_char(b / 16));
        r.push(hex_digit_char(b % 16));
        i += 1;
    }
    proof {
        assert(bytes@.take(i as int) =~= bytes@);
    }
    r
}

/// The hexadecimal form has two lower-case digits per byte.
pub proof fn lemma_hex_pairs(b: Seq<u8>)
    ensures
        hex_pairs(b).len() == 2 * b.len(),
        forall|i: int| 0 <= i < hex_pairs(b).len() ==> is_lower_hex(#[trigger] hex_pairs(b)[i]),
    decreases b.len(),
{
    if b.len() > 0 {
        lemma_hex_pairs(b.drop_last());
    }
}

/// Any [`TOKEN_BYTES`] bytes make a well-formed token.
pub proof fn law_hex_of_token_bytes_is_valid(b: Seq<u8>)
    requires
        b.len() == TOKEN_BYTES,
    ensures
        valid_token(hex_pairs(b)),
{
    lemma_hex_pairs(b);
}

/// A token that was written is used again: what is read back is what was generated.
pub proof fn law_token_is_used_again(b: Seq<u8>)
    requires
        b.len() == TOKEN_BYTES,
    ensures
        token_in(hex_pairs(b)) == Some(hex_pairs(b)),
{
    let t = hex_pairs(b);
    law_hex_of_token_bytes_is_valid(b);
    assert forall|i: int| 0 <= i < t.len() implies !crate::text::is_white(#[trigger] t[i]) by {
        assert(is_lower_hex(t[i]));
    }
    assert(is_word(t));
    lemma_trimmed_word(t);
}

/// `rand::rngs::SysRng`'s `try_fill_bytes`: as many bytes as asked for, or the error's
/// text.  What the bytes are is left to chance.
#[verifier::external_body]
fn random_bytes(n: usize) -> (r: Result<Vec<u8>, String>)
    ensures
        r matches Ok(b) ==> b@.len() == n,
{
    let mut b: Vec<u8> = vec![0u8; n];
    match rand::TryRng::try_fill_bytes(&mut rand::rngs::SysRng, &mut b) {
        Ok(()) => Ok(b),
        Err(e) => Err(e.to_string()),
    }
}

/// `b` is `n` bytes that the system's generator gave.
pub closed spec fn drawn(n: usize, b: Seq<u8>) -> bool {
    exists|v: Vec<u8>| #[trigger]
        call_ensures(random_bytes, (n,), Ok::<Vec<u8>, String>(v)) && v@ == b
}

/// `t` is the text of an error that the system's generator gave in place of `n` bytes.
pub closed spec fn not_drawn(n: usize, t: Seq<char>) -> bool {
    exists|e: String| #[trigger]
        call_ensures(random_bytes, (n,), Err::<Vec<u8>, String>(e)) && e@ == t
}

/// Random bytes, as many as asked for, or the error's text.
pub(crate) fn draw(n: usize) -> (r: Result<Vec<u8>, String>)
    ensures
        (match r {
            Ok(b) => b@.len() == n && drawn(n, b@),
            Err(e) => not_drawn(n, e@),
        }),
{
    let r = random_bytes(n);
    proof {
        if r is Ok {
            assert(call_ensures(random_bytes, (n,), Ok::<Vec<u8>, String>(r->Ok_0)));
        } else {
            assert(call_ensures(random_bytes, (n,), Err::<Vec<u8>, String>(r->Err_0)));
        }
    }
    r
}

/// A fresh token: random bytes in hexadecimal.
pub fn generate_token() -> (r: Result<String, TokenError>)
    ensures
        (match r {
            Ok(t) => valid_token(t@) && exists|b: Seq<u8>| #[trigger]
                drawn(TOKEN_BYTES, b) && t@ == hex_pairs(b),
            Err(e) => e matches TokenError::Rng(m) && not_drawn(TOKEN_BYTES, m@),
        }),
{
    match draw(TOKEN_BYTES) {
        Ok(b) => {
            proof {
                law_hex_of_token_bytes_is_valid(b@);
            }
            Ok(encode(b.as_slice()))
        },
        Err(e) => Err(TokenError::Rng(e)),
    }
}

/// The token that a token file holds: its text without white space around it, where that
/// is well-formed.
pub open spec fn token_in(content: Seq<char>) -> Option<Seq<char>> {
    if valid_token(trimmed(content)) {
        Some(trimmed(content))
    } else {
        None
    }
}

/// The token that a token file holds.  Without one a fresh token has to be generated.
pub fn stored_token(content: &str) -> (r: Option<String>)
    ensures
        opt_text(r) == token_in(content@),
{
    let t = trim(content);
    if is_valid_token(t.as_str()) {
        Some(t)
    } else {
        None
    }
}

/// `subtle::ConstantTimeEq::ct_eq` on byte slices, turned into a `bool`: whether the two
/// hold the same bytes.  That it takes the same time for any two slices of one length is
/// left unsaid.
#[verifier::external_body]
fn ct_eq(a: &[u8], b: &[u8]) -> (r: bool)
    ensures
        r == (a@ == b@),
{
    bool::from(subtle::ConstantTimeEq::ct_eq(a, b))
}

/// The header that presents a token.
pub open spec fn bearer_header(token: Seq<char>) -> Seq<char> {
    "Bearer "@ + token
}

/// The header presents the token.  A token that does not take [`TOKEN_HEX_LEN`] bytes is
/// never presented.
pub open spec fn presents(header: Option<Seq<char>>, token: Seq<char>) -> bool {
    header == Some(bearer_header(token)) && encode_utf8(token).len() == TOKEN_HEX_LEN
}

/// The text of an optional header.
pub open spec fn header_text(h: Option<&str>) -> Option<Seq<char>> {
    match h {
        Some(s) => Some(s@),
        None => None,
    }
}

/// Whether the `Authorization` header presents the expected token.
pub fn check_bearer(authorization_header: Option<&str>, expected_token: &str) -> (r: bool)
    ensures
        r == presents(header_text(authorization_header), expected_token@),
{
    match authorization_header {
        None => false,
        Some(h) => match strip_prefix(h, "Bearer ") {
            None => {
                proof {
                    assert(bearer_header(expected_token@).take("Bearer "@.len() as int)
                        =~= "Bearer "@);
                }
                false
            },
            Some(provided) => {
                proof {
                    assert(h@ =~= "Bearer "@ + provided@);
                    assert(bearer_header(expected_token@).skip("Bearer "@.len() as int)
                        =~= expected_token@);
                    vstd::utf8::encode_utf8_decode_utf8(provided@);
                    vstd::utf8::encode_utf8_decode_utf8(expected_token@);
                }
                let p = provided.as_str().as_bytes();
                let e = expected_token.as_bytes();
                if p.len() != TOKEN_HEX_LEN || e.len() != TOKEN_HEX_LEN {
                    return false;
                }
                ct_eq(p, e)
            },
        },
    }
}

/// A request is let in if and only if its header is `Bearer` and the well-formed token, with
/// one space between them.
pub proof fn law_bearer_of_valid_token(token: Seq<char>, header: Option<Seq<char>>)
    requires
        valid_token(token),
    ensures
        presents(header, token) <==> header == Some(bearer_header(token)),
{
    assert(is_ascii_chars(token)) by {
        assert forall|i: int| 0 <= i < token.len() implies '\0' <= #[trigger] token[i] <= '\u{7f}' by {
            assert(is_lower_hex(token[i]));
        }
    }
    vstd::utf8::is_ascii_chars_encode_utf8(token);
}

/// A token is 64 digits from `0` to `9` and `a` to `f`, and nothing else.
pub proof fn law_what_a_token_is(s: &str, r: bool)
    requires
        call_ensures(is_valid_token, (s,), r),
    ensures
        r <==> s@.len() == 64 && forall|i: int|
            0 <= i < s@.len() ==> "0123456789abcdef"@.contains(#[trigger] s@[i]),
{
    reveal_strlit("0123456789abcdef");
    let d = "0123456789abcdef"@;
    assert forall|c: char| is_lower_hex(c) <==> #[trigger] d.contains(c) by {
        if is_lower_hex(c) {
            let k = if '0' <= c <= '9' {
                c as u32 - '0' as u32
            } else {
                c as u32 - 'a' as u32 + 10
            };
            assert(d[0] == '0' && d[1] == '1' && d[2] == '2' && d[3] == '3' && d[4] == '4' && d[5] == '5'
                && d[6] == '6' && d[7] == '7' && d[8] == '8' && d[9] == '9' && d[10] == 'a' && d[11] == 'b'
                && d[12] == 'c' && d[13] == 'd' && d[14] == 'e' && d[15] == 'f');
            assert(d[k as int] == c);
        }
        if d.contains(c) {
            let k = choose|k: int| 0 <= k < d.len() && d[k] == c;
            assert(d.len() == 16);
        }
    }
    if r {
        assert forall|i: int| 0 <= i < s@.len() implies d.contains(#[trigger] s@[i]) by {
            assert(is_lower_hex(s@[i]));
        }
    }
    if s@.len() == 64 && forall|i: int| 0 <= i < s@.len() ==> d.contains(#[trigger] s@[i]) {
        assert forall|i: int| 0 <= i < s@.len() implies is_lower_hex(#[trigger] s@[i]) by {
            assert(d.contains(s@[i]));
        }
    }
}

/// Bytes are written as two digits each, so that different bytes are written differently.
pub proof fn law_bytes_are_written_apart(a: &[u8], b: &[u8], ra: String, rb: String, i: int)
    requires
        call_ensures(encode, (a,), ra),
        call_ensures(encode, (b,), rb),
        0 <= i < a@.len(),
    ensures
        ra@.len() == 2 * a@.len(),
        crate::net::hex_value(ra@[2 * i]) == Some((a@[i] / 16) as nat),
        crate::net::hex_value(ra@[2 * i + 1]) == Some((a@[i] % 16) as nat),
        ra@ == rb@ ==> a@ == b@,
{
    lemma_hex_pairs(a@);
    lemma_hex_pairs(b@);
    lemma_hex_pair_at(a@, i);
    if ra@ == rb@ {
        assert(a@.len() == b@.len());
        assert forall|k: int| 0 <= k < a@.len() implies a@[k] == b@[k] by {
            lemma_hex_pair_at(a@, k);
            lemma_hex_pair_at(b@, k);
        }
        assert(a@ =~= b@);
    }
}

proof fn lemma_hex_pair_at(b: Seq<u8>, i: int)
    requires
        0 <= i < b.len(),
    ensures
        hex_pairs(b).len() == 2 * b.len(),
        crate::net::hex_value(hex_pairs(b)[2 * i]) == Some(b[i] as nat / 16),
        crate::net::hex_value(hex_pairs(b)[2 * i + 1]) == Some(b[i] as nat % 16),
    decreases b.len(),
{
    lemma_hex_pairs(b);
    let f = b.drop_last();
    lemma_hex_pairs(f);
    if i < b.len() - 1 {
        lemma_hex_pair_at(f, i);
        assert(f[i] == b[i]);
    }
}

/// The token in a file is what stands there between white space, where that is a token.
pub proof fn law_tokens_are_read_between_white_space(content: &str, r: Option<String>, text: &str, valid: bool)
    requires
        call_ensures(stored_token, (content,), r),
        text@ == trimmed(content@),
        call_ensures(is_valid_token, (text,), valid),
    ensures
        r is Some <==> valid,
        r matches Some(t) ==> t@ == trimmed(content@),
{
}

/// A request with a well-formed token is let in just where its header is the word `Bearer`, one
/// space and that token.
pub proof fn law_only_the_token_is_let_in(header: Option<&str>, token: &str, valid: bool, r: bool)
    requires
        call_ensures(is_valid_token, (token,), valid),
        call_ensures(check_bearer, (header, token), r),
    ensures
        valid ==> (r <==> header is Some && header->0@ == "Bearer "@ + token@),
        r ==> header is Some && header->0@ == "Bearer "@ + token@,
        header is None ==> !r,
{
    if valid {
        law_bearer_of_valid_token(token@, header_text(header));
    }
}

/// What a failure of the token is called.
pub proof fn law_token_errors_are_told(e: &TokenError, r: String)
    requires
        call_ensures(TokenError::message, (e,), r),
    ensures
        *e matches TokenError::Io(s) ==> r@ == "token file I/O: "@ + s@,
        *e matches TokenError::Rng(s) ==> r@ == "OsRng failed: "@ + s@,
{
}

}
