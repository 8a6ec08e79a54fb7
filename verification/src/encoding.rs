//! Byte and text encodings: hexadecimal, base64, percent-encoding, SHA-256,
//! random tokens, and the PKCE verifier/challenge pair.
use vstd::prelude::*;
use base64::Engine;
use rand::RngCore;
use sha2::Digest;
use vstd::string::StringSliceAdditionalSpecFns;
use crate::text::string_of;

verus! {

broadcast use vstd::std_specs::vec::group_vec_axioms;

/// The lowercase hexadecimal digit for `d < 16`.
pub open spec fn hex_digit_lower(d: nat) -> char {
    if d < 10 {
        (48 + d) as char
    } else {
        (87 + d) as char
    }
}

/// The uppercase hexadecimal digit for `d < 16`.
pub open spec fn hex_digit_upper(d: nat) -> char {
    if d < 10 {
        (48 + d) as char
    } else {
        (55 + d) as char
    }
}

/// Each byte as two lowercase hexadecimal digits (`format!("{byte:02x}")`).
pub open spec fn hex_lower(bytes: Seq<u8>) -> Seq<char>
    decreases bytes.len(),
{
    if bytes.len() == 0 {
        seq![]
    } else {
        seq![hex_digit_lower(bytes[0] as nat / 16), hex_digit_lower(bytes[0] as nat % 16)]
            + hex_lower(bytes.drop_first())
    }
}

proof fn lemma_hex_lower_push(bytes: Seq<u8>, b: u8)
    ensures
        hex_lower(bytes.push(b)) == hex_lower(bytes) + seq![
            hex_digit_lower(b as nat / 16),
            hex_digit_lower(b as nat % 16),
        ],
    decreases bytes.len(),
{
    let tail = seq![hex_digit_lower(b as nat / 16), hex_digit_lower(b as nat % 16)];
    if bytes.len() == 0 {
        assert(bytes.push(b).drop_first() =~= Seq::<u8>::empty());
        assert(bytes.push(b)[0] == b);
        assert(hex_lower(bytes.push(b)) == tail + hex_lower(bytes.push(b).drop_first()));
        assert(hex_lower(Seq::<u8>::empty()) == Seq::<char>::empty());
        assert(hex_lower(bytes.push(b)) =~= tail);
        assert(hex_lower(bytes) + tail =~= tail);
    } else {
        assert(bytes.push(b).drop_first() =~= bytes.drop_first().push(b));
        lemma_hex_lower_push(bytes.drop_first(), b);
        let head = seq![hex_digit_lower(bytes[0] as nat / 16), hex_digit_lower(bytes[0] as nat % 16)];
        assert(bytes.push(b)[0] == bytes[0]);
        assert(hex_lower(bytes.push(b)) == head + hex_lower(bytes.drop_first().push(b)));
        assert(head + (hex_lower(bytes.drop_first()) + tail) =~= (head + hex_lower(bytes.drop_first())) + tail);
    }
}

proof fn lemma_hex_lower_len(bytes: Seq<u8>)
    ensures
        hex_lower(bytes).len() == 2 * bytes.len(),
    decreases bytes.len(),
{
    if bytes.len() > 0 {
        lemma_hex_lower_len(bytes.drop_first());
    }
}

fn hex_char_lower(d: u8) -> (c: char)
    requires
        d < 16,
    ensures
        c == hex_digit_lower(d as nat),
{
    if d < 10 {
        ((48 + d) as u8) as char
    } else {
        ((87 + d) as u8) as char
    }
}

/// The lowercase hexadecimal text of `bytes`, two digits a byte.
pub fn hex_encode_lower(bytes: &[u8]) -> (r: String)
    ensures
        r@ == hex_lower(bytes@),
        r@.len() == 2 * bytes@.len(),
{
    let mut out: Vec<char> = Vec::new();
    let mut i: usize = 0;
    assert(bytes@.take(0) =~= Seq::<u8>::empty());
    while i < bytes.len()
        invariant
            i <= bytes@.len(),
            out@ == hex_lower(bytes@.take(i as int)),
        decreases bytes@.len() - i,
    {
        let b = bytes[i];
        out.push(hex_char_lower(b / 16));
        out.push(hex_char_lower(b % 16));
        proof {
            lemma_hex_lower_push(bytes@.take(i as int), b);
            assert(bytes@.take(i + 1) =~= bytes@.take(i as int).push(b));
        }
        i = i + 1;
    }
    assert(bytes@.take(bytes@.len() as int) =~= bytes@);
    proof {
        lemma_hex_lower_len(bytes@);
    }
    string_of(&out)
}

/// The symbol for the 6-bit value `i` in the standard (`+`, `/`) or the
/// URL-safe (`-`, `_`) base64 alphabet.
pub open spec fn b64_symbol(url_safe: bool, i: nat) -> char {
    if i < 26 {
        (65 + i) as char
    } else if i < 52 {
        (71 + i) as char
    } else if i < 62 {
        ((i - 4) as nat) as char
    } else if i == 62 {
        if url_safe {
            '-'
        } else {
            '+'
        }
    } else {
        if url_safe {
            '_'
        } else {
            '/'
        }
    }
}

/// The base64 encoding of `b` (RFC 4648): each 3 bytes as 4 symbols, a final
/// 1 or 2 bytes as 2 or 3 symbols, followed by `=` padding when `pad`.
pub open spec fn base64_encode(url_safe: bool, pad: bool, b: Seq<u8>) -> Seq<char>
    decreases b.len(),
{
    if b.len() == 0 {
        seq![]
    } else if b.len() == 1 {
        seq![
            b64_symbol(url_safe, b[0] as nat / 4),
            b64_symbol(url_safe, (b[0] as nat % 4) * 16),
        ] + if pad {
            seq!['=', '=']
        } else {
            seq![]
        }
    } else if b.len() == 2 {
        seq![
            b64_symbol(url_safe, b[0] as nat / 4),
            b64_symbol(url_safe, (b[0] as nat % 4) * 16 + b[1] as nat / 16),
            b64_symbol(url_safe, (b[1] as nat % 16) * 4),
        ] + if pad {
            seq!['=']
        } else {
            seq![]
        }
    } else {
        seq![
            b64_symbol(url_safe, b[0] as nat / 4),
            b64_symbol(url_safe, (b[0] as nat % 4) * 16 + b[1] as nat / 16),
            b64_symbol(url_safe, (b[1] as nat % 16) * 4 + b[2] as nat / 64),
            b64_symbol(url_safe, b[2] as nat % 64),
        ] + base64_encode(url_safe, pad, b.skip(3))
    }
}

/// The length of the unpadded base64 encoding of `n` bytes.
pub open spec fn base64_unpadded_len(n: nat) -> nat {
    4 * (n / 3) + if n % 3 == 0 {
        0
    } else {
        n % 3 + 1
    }
}

/// The unpadded encoding of `n` bytes has `base64_unpadded_len(n)` symbols.
pub proof fn lemma_base64_unpadded_len(url_safe: bool, b: Seq<u8>)
    ensures
        base64_encode(url_safe, false, b).len() == base64_unpadded_len(b.len()),
    decreases b.len(),
{
    if b.len() >= 3 {
        lemma_base64_unpadded_len(url_safe, b.skip(3));
    }
}

/// A character of the URL-safe base64 alphabet: an ASCII letter or digit,
/// `-` or `_`.
pub open spec fn is_url_safe_char(c: char) -> bool {
    let u = c as u32;
    (65 <= u <= 90) || (97 <= u <= 122) || (48 <= u <= 57) || c == '-' || c == '_'
}

/// Text made only of URL-safe base64 characters.
pub open spec fn is_url_safe_text(t: Seq<char>) -> bool {
    forall|i: int| 0 <= i < t.len() ==> is_url_safe_char(#[trigger] t[i])
}

proof fn lemma_b64_symbol_url_safe(i: nat)
    requires
        i < 64,
    ensures
        is_url_safe_char(b64_symbol(true, i)),
{
    lemma_b64_symbol_code(true, i);
}

/// Every symbol of an unpadded URL-safe encoding is a letter, a digit, `-`
/// or `_`.
pub proof fn lemma_base64_url_alphabet(b: Seq<u8>)
    ensures
        is_url_safe_text(base64_encode(true, false, b)),
    decreases b.len(),
{
    if b.len() == 1 {
        lemma_b64_symbol_url_safe(b[0] as nat / 4);
        lemma_b64_symbol_url_safe((b[0] as nat % 4) * 16);
    } else if b.len() == 2 {
        lemma_b64_symbol_url_safe(b[0] as nat / 4);
        lemma_b64_symbol_url_safe((b[0] as nat % 4) * 16 + b[1] as nat / 16);
        lemma_b64_symbol_url_safe((b[1] as nat % 16) * 4);
    } else if b.len() >= 3 {
        lemma_b64_symbol_url_safe(b[0] as nat / 4);
        lemma_b64_symbol_url_safe((b[0] as nat % 4) * 16 + b[1] as nat / 16);
        lemma_b64_symbol_url_safe((b[1] as nat % 16) * 4 + b[2] as nat / 64);
        lemma_b64_symbol_url_safe(b[2] as nat % 64);
        lemma_base64_url_alphabet(b.skip(3));
        let head = seq![
            b64_symbol(true, b[0] as nat / 4),
            b64_symbol(true, (b[0] as nat % 4) * 16 + b[1] as nat / 16),
            b64_symbol(true, (b[1] as nat % 16) * 4 + b[2] as nat / 64),
            b64_symbol(true, b[2] as nat % 64),
        ];
        let tail = base64_encode(true, false, b.skip(3));
        assert forall|i: int| 0 <= i < (head + tail).len() implies is_url_safe_char(
            #[trigger] (head + tail)[i],
        ) by {
            if i >= 4 {
                assert((head + tail)[i] == tail[i - 4]);
            }
        }
    }
}

/// `URL_SAFE_NO_PAD.encode(bytes)` of the `base64` crate: the URL-safe base64
/// text of the bytes, without padding. Claims the result is
/// `base64_encode(true, false, bytes)`.
#[verifier::external_body]
pub(crate) fn base64_url_encode(bytes: &[u8]) -> (r: String)
    ensures
        r@ == base64_encode(true, false, bytes@),
{
    base64::engine::general_purpose::URL_SAFE_NO_PAD.encode(bytes)
}

/// `URL_SAFE_NO_PAD.decode(text)` of the `base64` crate. The engine accepts
/// only the canonical unpadded URL-safe encoding of some bytes (no padding, no
/// stray trailing bits). Claims: it returns bytes exactly when the text
/// encodes them.
#[verifier::external_body]
pub(crate) fn base64_url_decode(text: &str) -> (r: Option<Vec<u8>>)
    ensures
        r matches Some(b) ==> base64_encode(true, false, b@) == text@,
        r is None ==> forall|b: Seq<u8>| base64_encode(true, false, b) != text@,
{
    base64::engine::general_purpose::URL_SAFE_NO_PAD.decode(text.as_bytes()).ok()
}

/// The `Display` text of the error that `STANDARD.decode` of the `base64`
/// crate gives for a text that is not a canonical padded encoding.
pub uninterp spec fn spec_base64_standard_decode_error(text: Seq<char>) -> Seq<char>;

/// `STANDARD.decode(text)` of the `base64` crate. The engine accepts only the
/// canonical padded standard encoding of some bytes. Claims: it returns bytes
/// exactly when the text encodes them, and otherwise the error's text,
/// [`spec_base64_standard_decode_error`] of the text.
#[verifier::external_body]
pub(crate) fn base64_standard_decode(text: &str) -> (r: Result<Vec<u8>, String>)
    ensures
        r matches Ok(b) ==> base64_encode(false, true, b@) == text@,
        r matches Err(e) ==> (forall|b: Seq<u8>| base64_encode(false, true, b) != text@) && e@
            == spec_base64_standard_decode_error(text@),
{
    match base64::engine::general_purpose::STANDARD.decode(text.as_bytes()) {
        Ok(bytes) => Ok(bytes),
        Err(error) => Err(error.to_string()),
    }
}

/// The SHA-256 digest of some bytes.
pub uninterp spec fn spec_sha256(data: Seq<u8>) -> Seq<u8>;

/// `Sha256::digest` of the `sha2` crate. Claims the result is
/// [`spec_sha256`] of the input, 32 bytes long.
#[verifier::external_body]
pub(crate) fn sha256_digest(data: &[u8]) -> (r: Vec<u8>)
    ensures
        r@ == spec_sha256(data@),
        r@.len() == 32,
{
    sha2::Sha256::digest(data).to_vec()
}

/// `fill_bytes` of `rand::thread_rng()` on a buffer of `len` bytes. The bytes
/// are random: only their number is claimed.
#[verifier::external_body]
pub(crate) fn random_bytes(len: usize) -> (r: Vec<u8>)
    ensures
        r@.len() == len,
{
    let mut bytes = vec![0_u8; len];
    rand::thread_rng().fill_bytes(&mut bytes);
    bytes
}

/// A byte left as it is by percent-encoding: ASCII letters, digits, `-`,
/// `.`, `_` and `~`.
pub open spec fn is_unreserved(b: u8) -> bool {
    ||| 48 <= b <= 57
    ||| 65 <= b <= 90
    ||| 97 <= b <= 122
    ||| b == 45
    ||| b == 46
    ||| b == 95
    ||| b == 126
}

/// Percent-encoding of bytes: unreserved bytes as themselves, every other byte
/// as `%` and two uppercase hexadecimal digits.
pub open spec fn percent_encode(bytes: Seq<u8>) -> Seq<char>
    decreases bytes.len(),
{
    if bytes.len() == 0 {
        seq![]
    } else {
        let b = bytes[0];
        (if is_unreserved(b) {
            seq![b as char]
        } else {
            seq!['%', hex_digit_upper(b as nat / 16), hex_digit_upper(b as nat % 16)]
        }) + percent_encode(bytes.drop_first())
    }
}

/// `urlencoding::encode(text)`: percent-encodes the UTF-8 bytes of the text.
/// Claims the result is `percent_encode` of those bytes.
#[verifier::external_body]
pub(crate) fn url_encode(text: &str) -> (r: String)
    ensures
        r@ == percent_encode(text.spec_bytes()),
{
    urlencoding::encode(text).into_owned()
}

/// `bytes_len` random bytes as URL-safe unpadded base64 text.
pub fn random_urlsafe(bytes_len: usize) -> (r: String)
    ensures
        exists|b: Seq<u8>| b.len() == bytes_len && r@ == base64_encode(true, false, b),
        r@.len() == base64_unpadded_len(bytes_len as nat),
{
    let bytes = random_bytes(bytes_len);
    let r = base64_url_encode(&bytes);
    proof {
        lemma_base64_unpadded_len(true, bytes@);
    }
    r
}

/// `bytes_len` random bytes as lowercase hexadecimal text.
pub fn random_hex(bytes_len: usize) -> (r: String)
    ensures
        exists|b: Seq<u8>| b.len() == bytes_len && r@ == hex_lower(b),
        r@.len() == 2 * bytes_len,
{
    let bytes = random_bytes(bytes_len);
    hex_encode_lower(&bytes)
}

/// The PKCE pair of an OAuth login: the secret verifier and its S256 challenge.
pub struct PkceCodes {
    pub code_verifier: String,
    pub code_challenge: String,
}

/// The S256 challenge of a PKCE verifier: the unpadded URL-safe base64 text of
/// the SHA-256 digest of its UTF-8 bytes.
pub open spec fn pkce_challenge(verifier: Seq<char>) -> Seq<char> {
    base64_encode(true, false, spec_sha256(vstd::utf8::encode_utf8(verifier)))
}

/// The PKCE pair for a given verifier.
pub fn pkce_from_verifier(code_verifier: String) -> (r: PkceCodes)
    ensures
        r.code_verifier@ == code_verifier@,
        r.code_challenge@ == pkce_challenge(code_verifier@),
        r.code_challenge@.len() == 43,
        is_url_safe_text(r.code_challenge@),
{
    let digest = sha256_digest(code_verifier.as_str().as_bytes());
    let code_challenge = base64_url_encode(&digest);
    proof {
        lemma_base64_unpadded_len(true, digest@);
        lemma_base64_url_alphabet(digest@);
    }
    PkceCodes { code_verifier, code_challenge }
}

/// A fresh PKCE pair: the verifier is 96 random bytes as URL-safe base64 text
/// (128 characters), the challenge its S256 transform.
pub fn generate_pkce_codes() -> (r: PkceCodes)
    ensures
        exists|b: Seq<u8>| b.len() == 96 && r.code_verifier@ == base64_encode(true, false, b),
        r.code_verifier@.len() == 128,
        is_url_safe_text(r.code_verifier@),
        r.code_challenge@ == pkce_challenge(r.code_verifier@),
        r.code_challenge@.len() == 43,
        is_url_safe_text(r.code_challenge@),
{
    let code_verifier = random_urlsafe(96);
    proof {
        let b = choose|b: Seq<u8>| b.len() == 96 && code_verifier@ == base64_encode(true, false, b);
        lemma_base64_url_alphabet(b);
    }
    pkce_from_verifier(code_verifier)
}

} // verus!

verus! {

/// The code point of each base64 symbol.
spec fn b64_code(url_safe: bool, i: nat) -> nat {
    if i < 26 {
        65 + i
    } else if i < 52 {
        71 + i
    } else if i < 62 {
        (i - 4) as nat
    } else if i == 62 {
        if url_safe {
            45
        } else {
            43
        }
    } else {
        if url_safe {
            95
        } else {
            47
        }
    }
}

proof fn lemma_b64_symbol_code(url_safe: bool, i: nat)
    requires
        i < 64,
    ensures
        b64_symbol(url_safe, i) as u32 == b64_code(url_safe, i),
        b64_symbol(url_safe, i) != '=',
{
}

proof fn lemma_b64_symbol_injective(url_safe: bool, i: nat, j: nat)
    requires
        i < 64,
        j < 64,
        b64_symbol(url_safe, i) == b64_symbol(url_safe, j),
    ensures
        i == j,
{
    lemma_b64_symbol_code(url_safe, i);
    lemma_b64_symbol_code(url_safe, j);
}

proof fn lemma_bytes_from_groups(a0: nat, a1: nat, a2: nat, b0: nat, b1: nat, b2: nat)
    by (nonlinear_arith)
    requires
        a0 < 256,
        a1 < 256,
        a2 < 256,
        b0 < 256,
        b1 < 256,
        b2 < 256,
        a0 / 4 == b0 / 4,
        (a0 % 4) * 16 + a1 / 16 == (b0 % 4) * 16 + b1 / 16,
        (a1 % 16) * 4 + a2 / 64 == (b1 % 16) * 4 + b2 / 64,
        a2 % 64 == b2 % 64,
    ensures
        a0 == b0,
        a1 == b1,
        a2 == b2,
{
}

proof fn lemma_bytes_from_pair(a0: nat, a1: nat, b0: nat, b1: nat)
    by (nonlinear_arith)
    requires
        a0 < 256,
        a1 < 256,
        b0 < 256,
        b1 < 256,
        a0 / 4 == b0 / 4,
        (a0 % 4) * 16 + a1 / 16 == (b0 % 4) * 16 + b1 / 16,
        (a1 % 16) * 4 == (b1 % 16) * 4,
    ensures
        a0 == b0,
        a1 == b1,
{
}

proof fn lemma_byte_from_single(a0: nat, b0: nat)
    by (nonlinear_arith)
    requires
        a0 < 256,
        b0 < 256,
        a0 / 4 == b0 / 4,
        (a0 % 4) * 16 == (b0 % 4) * 16,
    ensures
        a0 == b0,
{
}

/// The symbols of an encoding are base64 symbols up to its padding: the
/// length is at least 2 for a non-empty input, and position 2 holds a symbol
/// when at least 2 bytes are encoded, position 3 when at least 3 are.
proof fn lemma_base64_shape(url_safe: bool, pad: bool, b: Seq<u8>)
    ensures
        b.len() == 0 <==> base64_encode(url_safe, pad, b).len() == 0,
        b.len() > 0 ==> base64_encode(url_safe, pad, b).len() >= 2,
        b.len() == 1 ==> base64_encode(url_safe, pad, b).len() == if pad {
            4int
        } else {
            2int
        },
        b.len() == 1 && pad ==> base64_encode(url_safe, pad, b)[2] == '=',
        b.len() == 2 ==> base64_encode(url_safe, pad, b).len() == if pad {
            4int
        } else {
            3int
        },
        b.len() == 2 && pad ==> base64_encode(url_safe, pad, b)[3] == '=',
        b.len() >= 2 ==> base64_encode(url_safe, pad, b)[2] != '=',
        b.len() >= 3 ==> base64_encode(url_safe, pad, b).len() >= 4 && base64_encode(
            url_safe,
            pad,
            b,
        )[3] != '=',
{
    if b.len() >= 2 {
        lemma_b64_symbol_code(url_safe, (b[1] as nat % 16) * 4 + if b.len() >= 3 {
            b[2] as nat / 64
        } else {
            0
        });
    }
    if b.len() >= 3 {
        lemma_b64_symbol_code(url_safe, b[2] as nat % 64);
    }
}

/// Different bytes have different base64 encodings.
pub proof fn lemma_base64_injective(url_safe: bool, pad: bool, a: Seq<u8>, b: Seq<u8>)
    requires
        base64_encode(url_safe, pad, a) == base64_encode(url_safe, pad, b),
    ensures
        a == b,
    decreases a.len(),
{
    let e = base64_encode(url_safe, pad, a);
    lemma_base64_shape(url_safe, pad, a);
    lemma_base64_shape(url_safe, pad, b);
    if a.len() == 0 || b.len() == 0 {
        assert(a =~= b);
        return;
    }
    assert(e[0] == b64_symbol(url_safe, a[0] as nat / 4));
    assert(e[0] == b64_symbol(url_safe, b[0] as nat / 4));
    lemma_b64_symbol_injective(url_safe, a[0] as nat / 4, b[0] as nat / 4);
    if a.len() >= 3 && b.len() >= 3 {
        let a1 = (a[0] as nat % 4) * 16 + a[1] as nat / 16;
        let b1 = (b[0] as nat % 4) * 16 + b[1] as nat / 16;
        let a2 = (a[1] as nat % 16) * 4 + a[2] as nat / 64;
        let b2 = (b[1] as nat % 16) * 4 + b[2] as nat / 64;
        assert(e[1] == b64_symbol(url_safe, a1) && e[1] == b64_symbol(url_safe, b1));
        assert(e[2] == b64_symbol(url_safe, a2) && e[2] == b64_symbol(url_safe, b2));
        assert(e[3] == b64_symbol(url_safe, a[2] as nat % 64) && e[3] == b64_symbol(
            url_safe,
            b[2] as nat % 64,
        ));
        lemma_b64_symbol_injective(url_safe, a1, b1);
        lemma_b64_symbol_injective(url_safe, a2, b2);
        lemma_b64_symbol_injective(url_safe, a[2] as nat % 64, b[2] as nat % 64);
        lemma_bytes_from_groups(
            a[0] as nat,
            a[1] as nat,
            a[2] as nat,
            b[0] as nat,
            b[1] as nat,
            b[2] as nat,
        );
        assert(base64_encode(url_safe, pad, a).skip(4) =~= base64_encode(url_safe, pad, a.skip(3)));
        assert(base64_encode(url_safe, pad, b).skip(4) =~= base64_encode(url_safe, pad, b.skip(3)));
        lemma_base64_injective(url_safe, pad, a.skip(3), b.skip(3));
        assert(a =~= b) by {
            assert forall|k: int| 0 <= k < a.len() implies a[k] == b[k] by {
                if k >= 3 {
                    assert(a[k] == a.skip(3)[k - 3]);
                    assert(b[k] == b.skip(3)[k - 3]);
                }
            }
        }
    } else if a.len() == 2 && b.len() == 2 {
        let a1 = (a[0] as nat % 4) * 16 + a[1] as nat / 16;
        let b1 = (b[0] as nat % 4) * 16 + b[1] as nat / 16;
        assert(e[1] == b64_symbol(url_safe, a1) && e[1] == b64_symbol(url_safe, b1));
        assert(e[2] == b64_symbol(url_safe, (a[1] as nat % 16) * 4) && e[2] == b64_symbol(
            url_safe,
            (b[1] as nat % 16) * 4,
        ));
        lemma_b64_symbol_injective(url_safe, a1, b1);
        lemma_b64_symbol_injective(url_safe, (a[1] as nat % 16) * 4, (b[1] as nat % 16) * 4);
        lemma_bytes_from_pair(a[0] as nat, a[1] as nat, b[0] as nat, b[1] as nat);
        assert(a =~= b);
    } else if a.len() == 1 && b.len() == 1 {
        assert(e[1] == b64_symbol(url_safe, (a[0] as nat % 4) * 16) && e[1] == b64_symbol(
            url_safe,
            (b[0] as nat % 4) * 16,
        ));
        lemma_b64_symbol_injective(url_safe, (a[0] as nat % 4) * 16, (b[0] as nat % 4) * 16);
        lemma_byte_from_single(a[0] as nat, b[0] as nat);
        assert(a =~= b);
    } else {
        // the lengths or the padding positions differ
        assert(false);
    }
}

/// The bytes that a base64 text encodes, if it is the encoding of any.
pub open spec fn base64_decode(url_safe: bool, pad: bool, text: Seq<char>) -> Option<Seq<u8>> {
    if exists|b: Seq<u8>| base64_encode(url_safe, pad, b) == text {
        Some(choose|b: Seq<u8>| base64_encode(url_safe, pad, b) == text)
    } else {
        None
    }
}

/// Decoding gives back the bytes whose encoding the text is.
pub proof fn lemma_base64_decode_encoded(url_safe: bool, pad: bool, b: Seq<u8>)
    ensures
        base64_decode(url_safe, pad, base64_encode(url_safe, pad, b)) == Some(b),
{
    let text = base64_encode(url_safe, pad, b);
    assert(exists|c: Seq<u8>| base64_encode(url_safe, pad, c) == text);
    let c = choose|c: Seq<u8>| base64_encode(url_safe, pad, c) == text;
    lemma_base64_injective(url_safe, pad, c, b);
}

} // verus!
