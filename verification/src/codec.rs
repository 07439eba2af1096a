//! Encodings, digests, signatures and randomness, each from the crate that
//! implements it.

use base64::Engine;
use ed25519_dalek::{Signer, SigningKey};
use hmac::{Hmac, Mac};
use rand::Rng;
use rand_core::{OsRng, RngCore};
use sha2::Sha256;
use vstd::prelude::*;

verus! {

// ---------------------------------------------------------------------------
// Hexadecimal text
// ---------------------------------------------------------------------------

/// The value of a hexadecimal digit.
pub open spec fn hex_digit(c: char) -> Option<nat> {
    let n = c as u32;
    if 48 <= n <= 57 {
        Some((n - 48) as nat)
    } else if 65 <= n <= 70 {
        Some((n - 55) as nat)
    } else if 97 <= n <= 102 {
        Some((n - 87) as nat)
    } else {
        None
    }
}

/// The value of a hexadecimal digit.
pub fn hex_digit_value(c: char) -> (r: Option<u8>)
    ensures
        match r {
            Some(d) => d < 16 && hex_digit(c) == Some(d as nat),
            None => hex_digit(c) is None,
        },
{
    let n: u32 = c as u32;
    if 48 <= n && n <= 57 {
        Some((n - 48) as u8)
    } else if 65 <= n && n <= 70 {
        Some((n - 55) as u8)
    } else if 97 <= n && n <= 102 {
        Some((n - 87) as u8)
    } else {
        None
    }
}

/// The lower-case hexadecimal digit of a value below sixteen.
pub open spec fn hex_char(d: int) -> char {
    if d < 10 {
        (48 + d) as char
    } else {
        (87 + d) as char
    }
}

/// Two lower-case hexadecimal digits for each byte.
pub open spec fn hex_text(bytes: Seq<u8>) -> Seq<char> {
    Seq::new(
        2 * bytes.len(),
        |i: int| hex_char(if i % 2 == 0 {
            bytes[i / 2] as int / 16
        } else {
            bytes[i / 2] as int % 16
        }),
    )
}

/// Whether every character is a hexadecimal digit.
pub open spec fn all_hex(s: Seq<char>) -> bool {
    forall|i: int| 0 <= i < s.len() ==> hex_digit(#[trigger] s[i]) is Some
}

/// The bytes that pairs of hexadecimal digits write.
pub open spec fn hex_bytes(s: Seq<char>) -> Option<Seq<u8>> {
    if s.len() % 2 == 0 && all_hex(s) {
        Some(Seq::new(s.len() / 2, |i: int| (hex_digit(s[2 * i])->0 * 16 + hex_digit(s[2 * i + 1])->0) as u8))
    } else {
        None
    }
}

/// `hex::encode`: two lower-case digits for each byte.
#[verifier::external_body]
pub(crate) fn hex_encode(bytes: &Vec<u8>) -> (s: String)
    ensures
        s@ == hex_text(bytes@),
{
    hex::encode(bytes)
}

/// `hex::decode`: the bytes of an even number of digits in either case; nothing
/// where a character is no digit or one is left over.
#[verifier::external_body]
pub(crate) fn hex_decode(s: &str) -> (r: Option<Vec<u8>>)
    ensures
        match r {
            Some(b) => hex_bytes(s@) == Some(b@),
            None => hex_bytes(s@) is None,
        },
{
    hex::decode(s).ok()
}

/// Whether every character is a hexadecimal digit.
pub fn is_all_hex(s: &str) -> (b: bool)
    ensures
        b == all_hex(s@),
{
    let v = crate::text::to_chars(s);
    let mut i: usize = 0;
    while i < v.len()
        invariant
            v@ == s@,
            i <= v@.len(),
            forall|k: int| 0 <= k < i ==> hex_digit(#[trigger] v@[k]) is Some,
        decreases v@.len() - i,
    {
        if hex_digit_value(v[i]).is_none() {
            assert(hex_digit(s@[i as int]) is None);
            return false;
        }
        i = i + 1;
    }
    true
}

/// Reading what was written gives the bytes back.
pub proof fn law_hex_round_trip(bytes: Seq<u8>)
    ensures
        all_hex(hex_text(bytes)),
        hex_bytes(hex_text(bytes)) == Some(bytes),
{
    let s = hex_text(bytes);
    assert forall|i: int| 0 <= i < s.len() implies hex_digit(#[trigger] s[i]) == Some(
        if i % 2 == 0 {
            (bytes[i / 2] as int / 16) as nat
        } else {
            (bytes[i / 2] as int % 16) as nat
        },
    ) by {
        let d = if i % 2 == 0 {
            bytes[i / 2] as int / 16
        } else {
            bytes[i / 2] as int % 16
        };
        assert(0 <= d < 16);
        assert(s[i] == hex_char(d));
    }
    let back = hex_bytes(s)->0;
    assert forall|i: int| 0 <= i < bytes.len() implies #[trigger] back[i] == bytes[i] by {
        assert(hex_digit(s[2 * i]) == Some((bytes[i] as int / 16) as nat));
        assert(hex_digit(s[2 * i + 1]) == Some((bytes[i] as int % 16) as nat));
    }
    assert(back =~= bytes);
}

// ---------------------------------------------------------------------------
// Base64
// ---------------------------------------------------------------------------

/// The text that the standard base64 engine writes for bytes.
pub uninterp spec fn base64_text(bytes: Seq<u8>) -> Seq<char>;

/// The bytes that the standard base64 engine reads from a text, where it is
/// well formed and padded, and else the engine's own words for what is wrong.
pub uninterp spec fn base64_reading(text: Seq<char>) -> Result<Seq<u8>, Seq<char>>;

/// The bytes that a text writes in base64, where it is well formed and padded.
pub open spec fn base64_bytes(text: Seq<char>) -> Option<Seq<u8>> {
    match base64_reading(text) {
        Ok(b) => Some(b),
        Err(_) => None,
    }
}

/// `Engine::encode` of base64's standard engine. Decoding what it wrote gives
/// the bytes back. The text is a third longer than the bytes, and must fit
/// into memory.
#[verifier::external_body]
pub(crate) fn base64_encode(bytes: &Vec<u8>) -> (s: String)
    requires
        bytes@.len() <= usize::MAX / 8,
    ensures
        s@ == base64_text(bytes@),
        base64_bytes(s@) == Some(bytes@),
{
    base64::engine::general_purpose::STANDARD.encode(bytes)
}

/// `Engine::decode` of base64's standard engine, which requires the padding. The
/// error is what it says of itself.
#[verifier::external_body]
pub(crate) fn base64_read(text: &str) -> (r: Result<Vec<u8>, String>)
    ensures
        match r {
            Ok(b) => base64_reading(text@) == Ok::<Seq<u8>, Seq<char>>(b@),
            Err(e) => base64_reading(text@) == Err::<Seq<u8>, Seq<char>>(e@),
        },
{
    base64::engine::general_purpose::STANDARD.decode(text).map_err(|e| e.to_string())
}

/// The bytes that a text writes in base64.
pub(crate) fn base64_decode(text: &str) -> (r: Option<Vec<u8>>)
    ensures
        match r {
            Some(b) => base64_bytes(text@) == Some(b@),
            None => base64_bytes(text@) is None,
        },
{
    match base64_read(text) {
        Ok(b) => Some(b),
        Err(_) => None,
    }
}

/// `std::str::from_utf8`: the text of bytes that are well-formed UTF-8.
#[verifier::external_body]
pub(crate) fn utf8_text(bytes: &Vec<u8>) -> (r: Option<String>)
    ensures
        match r {
            Some(s) => vstd::utf8::valid_utf8(bytes@) && s@ == vstd::utf8::decode_utf8(bytes@),
            None => !vstd::utf8::valid_utf8(bytes@),
        },
{
    std::str::from_utf8(bytes).ok().map(str::to_owned)
}

// ---------------------------------------------------------------------------
// Digests and signatures
// ---------------------------------------------------------------------------

/// The code that HMAC with SHA-256 gives a message under a key.
pub uninterp spec fn hmac_of(key: Seq<u8>, message: Seq<u8>) -> Seq<u8>;

/// `Mac` of hmac with `Sha256` of sha2: the 32 bytes of the code. A key of any
/// length is accepted.
#[verifier::external_body]
pub(crate) fn hmac_sha256(key: &[u8], message: &[u8]) -> (code: Vec<u8>)
    ensures
        code@ == hmac_of(key@, message@),
        code@.len() == 32,
{
    let mut mac = Hmac::<Sha256>::new_from_slice(key).expect("any length will do");
    mac.update(message);
    mac.finalize().into_bytes().to_vec()
}

/// The Ed25519 signature of a message under a private key.
pub uninterp spec fn signature_of(key: Seq<u8>, message: Seq<u8>) -> Seq<u8>;

/// The public key of an Ed25519 private key.
pub uninterp spec fn public_key_of(key: Seq<u8>) -> Seq<u8>;

/// `SigningKey::sign` of ed25519-dalek: the 64 bytes of the signature, which
/// key and message determine.
#[verifier::external_body]
pub(crate) fn ed25519_sign(key: &Vec<u8>, message: &Vec<u8>) -> (signature: Vec<u8>)
    requires
        key@.len() == 32,
    ensures
        signature@ == signature_of(key@, message@),
        signature@.len() == 64,
{
    let secret: [u8; 32] = key.as_slice().try_into().expect("a key has 32 bytes");
    SigningKey::from_bytes(&secret).sign(message).to_bytes().to_vec()
}

/// `SigningKey::verifying_key` of ed25519-dalek: the 32 bytes of the public
/// key.
#[verifier::external_body]
pub(crate) fn ed25519_public(key: &Vec<u8>) -> (public: Vec<u8>)
    requires
        key@.len() == 32,
    ensures
        public@ == public_key_of(key@),
        public@.len() == 32,
{
    let secret: [u8; 32] = key.as_slice().try_into().expect("a key has 32 bytes");
    SigningKey::from_bytes(&secret).verifying_key().to_bytes().to_vec()
}

// ---------------------------------------------------------------------------
// Randomness
// ---------------------------------------------------------------------------

/// `fill_bytes` of rand_core's `OsRng`: that many bytes from the operating
/// system. Which ones cannot be said.
#[verifier::external_body]
pub(crate) fn random_bytes(count: usize) -> (bytes: Vec<u8>)
    ensures
        bytes@.len() == count,
{
    let mut bytes = vec![0u8; count];
    OsRng.fill_bytes(&mut bytes);
    bytes
}

/// `gen_range` of rand's thread-local generator: some number below the bound.
/// Which one cannot be said.
#[verifier::external_body]
pub(crate) fn random_below(bound: usize) -> (n: usize)
    requires
        bound > 0,
    ensures
        n < bound,
{
    rand::thread_rng().gen_range(0..bound)
}

/// Whether a character is a hexadecimal digit, in lower case where it is a
/// letter.
pub open spec fn lower_hex(c: char) -> bool {
    '0' <= c <= '9' || 'a' <= c <= 'f'
}

/// Whether a text is a random UUID: 32 hexadecimal digits in groups of 8, 4, 4,
/// 4 and 12, of which the third group begins with the version, 4, and the fourth
/// with 8, 9, a or b.
pub open spec fn random_uuid(s: Seq<char>) -> bool {
    &&& s.len() == 36
    &&& s[8] == '-' && s[13] == '-' && s[18] == '-' && s[23] == '-'
    &&& s[14] == '4'
    &&& s[19] == '8' || s[19] == '9' || s[19] == 'a' || s[19] == 'b'
    &&& forall|i: int| 0 <= i < 36 && i != 8 && i != 13 && i != 18 && i != 23 ==> lower_hex(#[trigger] s[i])
}

/// `Uuid::new_v4` of uuid, as a text: some random UUID. Which one cannot be said.
#[verifier::external_body]
pub(crate) fn new_uuid() -> (s: String)
    ensures
        random_uuid(s@),
{
    uuid::Uuid::new_v4().to_string()
}

} // verus!
