//! License keys that are issued by hand: a random number and its signature,
//! written in groups of letters and digits that are hard to confuse.

use crate::codec::{
    ed25519_public, ed25519_sign, hex_bytes, hex_decode, hex_encode, hex_text, law_hex_round_trip, public_key_of,
    random_bytes, signature_of,
};
use crate::text::{join, joined, slice_text, to_chars, trim, trimmed, views};
use vstd::prelude::*;

verus! {

// ---------------------------------------------------------------------------
// Base 32
// ---------------------------------------------------------------------------

/// The character of a value below 32: digits and capital letters without
/// `I`, `L`, `O` and `U`.
pub open spec fn crockford(v: int) -> char {
    (if v < 10 {
        48 + v
    } else if v < 18 {
        55 + v
    } else if v < 20 {
        56 + v
    } else if v < 22 {
        57 + v
    } else if v < 27 {
        58 + v
    } else {
        59 + v
    }) as char
}

/// Two to the seventh, sixth, and so on.
pub open spec fn place_value(k: int) -> int {
    if k == 0 {
        128
    } else if k == 1 {
        64
    } else if k == 2 {
        32
    } else if k == 3 {
        16
    } else if k == 4 {
        8
    } else if k == 5 {
        4
    } else if k == 6 {
        2
    } else {
        1
    }
}

/// The bit at a place, counted from the highest of the first byte; zero after
/// the last.
pub open spec fn bit_at(bytes: Seq<u8>, k: int) -> int {
    if 0 <= k < 8 * bytes.len() {
        (bytes[k / 8] as int / place_value(k % 8)) % 2
    } else {
        0
    }
}

/// The value of five bits from a place on.
pub open spec fn five_bits(bytes: Seq<u8>, k: int) -> int {
    16 * bit_at(bytes, k) + 8 * bit_at(bytes, k + 1) + 4 * bit_at(bytes, k + 2) + 2 * bit_at(bytes, k + 3) + bit_at(
        bytes,
        k + 4,
    )
}

/// The number of characters for that many bytes.
pub open spec fn base32_len(n: nat) -> nat {
    ((8 * n + 4) / 5) as nat
}

/// The bits of the bytes, five to a character, the last one filled with
/// zeros.
pub open spec fn base32_text(bytes: Seq<u8>) -> Seq<char> {
    Seq::new(base32_len(bytes.len()), |i: int| crockford(five_bits(bytes, 5 * i)))
}

fn get_place_value(k: usize) -> (d: u8)
    requires
        k < 8,
    ensures
        d == place_value(k as int),
        d > 0,
{
    if k == 0 {
        128
    } else if k == 1 {
        64
    } else if k == 2 {
        32
    } else if k == 3 {
        16
    } else if k == 4 {
        8
    } else if k == 5 {
        4
    } else if k == 6 {
        2
    } else {
        1
    }
}

fn get_bit(bytes: &Vec<u8>, k: usize) -> (b: u8)
    ensures
        b == bit_at(bytes@, k as int),
        b < 2,
{
    if k / 8 < bytes.len() {
        let d: u8 = get_place_value(k % 8);
        (bytes[k / 8] / d) % 2
    } else {
        0
    }
}

fn crockford_char(v: u8) -> (c: char)
    requires
        v < 32,
    ensures
        c == crockford(v as int),
{
    let code: u8 = if v < 10 {
        48 + v
    } else if v < 18 {
        55 + v
    } else if v < 20 {
        56 + v
    } else if v < 22 {
        57 + v
    } else if v < 27 {
        58 + v
    } else {
        59 + v
    };
    code as char
}

/// The bits of the bytes, five to a character.
pub fn base32_encode(bytes: &Vec<u8>) -> (s: String)
    requires
        bytes@.len() <= usize::MAX / 16,
    ensures
        s@ == base32_text(bytes@),
{
    let count: usize = (8 * bytes.len() + 4) / 5;
    let mut s = String::new();
    let ghost all = base32_text(bytes@);
    let mut i: usize = 0;
    assert(s@ =~= all.take(0));
    while i < count
        invariant
            bytes@.len() <= usize::MAX / 16,
            count == base32_len(bytes@.len()),
            i <= count,
            all == base32_text(bytes@),
            s@ == all.take(i as int),
        decreases count - i,
    {
        let k: usize = 5 * i;
        let v: u8 = 16 * get_bit(bytes, k) + 8 * get_bit(bytes, k + 1) + 4 * get_bit(bytes, k + 2) + 2 * get_bit(
            bytes,
            k + 3,
        ) + get_bit(bytes, k + 4);
        s.push(crockford_char(v));
        assert(all.take(i + 1) =~= all.take(i as int).push(all[i as int]));
        i = i + 1;
    }
    assert(all.take(count as int) =~= all);
    s
}

proof fn lemma_byte_of_bits(a: u8, b: u8)
    requires
        forall|j: int| 0 <= j < 8 ==> #[trigger] (a as int / place_value(j)) % 2 == (b as int / place_value(j)) % 2,
    ensures
        a == b,
{
    assert((a as int / place_value(0)) % 2 == (b as int / place_value(0)) % 2);
    assert((a as int / place_value(1)) % 2 == (b as int / place_value(1)) % 2);
    assert((a as int / place_value(2)) % 2 == (b as int / place_value(2)) % 2);
    assert((a as int / place_value(3)) % 2 == (b as int / place_value(3)) % 2);
    assert((a as int / place_value(4)) % 2 == (b as int / place_value(4)) % 2);
    assert((a as int / place_value(5)) % 2 == (b as int / place_value(5)) % 2);
    assert((a as int / place_value(6)) % 2 == (b as int / place_value(6)) % 2);
    assert((a as int / place_value(7)) % 2 == (b as int / place_value(7)) % 2);
}

proof fn lemma_same_bit(a: Seq<u8>, b: Seq<u8>, k: int)
    requires
        a.len() == b.len(),
        base32_text(a) == base32_text(b),
        0 <= k < 8 * a.len(),
    ensures
        bit_at(a, k) == bit_at(b, k),
{
    let i = k / 5;
    assert(base32_text(a)[i] == base32_text(b)[i]);
    assert(base32_text(a)[i] == crockford(five_bits(a, 5 * i)));
    assert(base32_text(b)[i] == crockford(five_bits(b, 5 * i)));
    lemma_bits_are_bits(a, 5 * i);
    lemma_bits_are_bits(b, 5 * i);
    lemma_crockford_differs(five_bits(a, 5 * i), five_bits(b, 5 * i));
    assert(5 * i <= k < 5 * i + 5);
}

proof fn lemma_bits_are_bits(a: Seq<u8>, k: int)
    ensures
        0 <= bit_at(a, k) <= 1,
        0 <= bit_at(a, k + 1) <= 1,
        0 <= bit_at(a, k + 2) <= 1,
        0 <= bit_at(a, k + 3) <= 1,
        0 <= bit_at(a, k + 4) <= 1,
        0 <= five_bits(a, k) < 32,
{
}

proof fn lemma_crockford_differs(u: int, v: int)
    requires
        0 <= u < 32,
        0 <= v < 32,
        crockford(u) == crockford(v),
    ensures
        u == v,
{
    assert(crockford(u) as u32 == crockford(v) as u32);
}

/// Different bytes of one length are never written alike.
pub proof fn law_base32_is_injective(a: Seq<u8>, b: Seq<u8>)
    requires
        a.len() == b.len(),
        base32_text(a) == base32_text(b),
    ensures
        a == b,
{
    assert forall|i: int| 0 <= i < a.len() implies a[i] == b[i] by {
        assert forall|j: int| 0 <= j < 8 implies #[trigger] (a[i] as int / place_value(j)) % 2 == (b[i] as int
            / place_value(j)) % 2 by {
            let k = 8 * i + j;
            lemma_same_bit(a, b, k);
            assert(k / 8 == i && k % 8 == j);
        }
        lemma_byte_of_bits(a[i], b[i]);
    }
    assert(a =~= b);
}

// ---------------------------------------------------------------------------
// Keys
// ---------------------------------------------------------------------------

/// The text in pieces of that many characters; the last may be shorter.
pub open spec fn chunks(s: Seq<char>, size: nat) -> Seq<Seq<char>>
    decreases s.len(),
{
    if s.len() == 0 || size == 0 {
        Seq::empty()
    } else if s.len() <= size {
        seq![s]
    } else {
        seq![s.take(size as int)] + chunks(s.skip(size as int), size)
    }
}

/// The text in groups of that many characters with dashes between them.
pub fn group_with_dashes(s: &str, group_size: usize) -> (r: String)
    requires
        group_size > 0,
    ensures
        r@ == joined(chunks(s@, group_size as nat), "-"@),
{
    let v = to_chars(s);
    let mut groups: Vec<String> = Vec::new();
    let mut lo: usize = 0;
    assert(v@.skip(0) =~= v@);
    assert(views(groups@) + chunks(v@, group_size as nat) =~= chunks(s@, group_size as nat));
    while lo < v.len()
        invariant
            v@ == s@,
            group_size > 0,
            lo <= v@.len(),
            views(groups@) + chunks(v@.skip(lo as int), group_size as nat) == chunks(s@, group_size as nat),
        decreases v@.len() - lo,
    {
        let hi: usize = if v.len() - lo <= group_size {
            v.len()
        } else {
            lo + group_size
        };
        let ghost rest = v@.skip(lo as int);
        let ghost before = views(groups@);
        let group = slice_text(&v, lo, hi);
        groups.push(group);
        proof {
            assert(views(groups@) =~= before.push(group@));
            if rest.len() <= group_size {
                assert(group@ =~= rest);
                assert(v@.skip(hi as int) =~= Seq::<char>::empty());
                assert(before.push(group@) + chunks(v@.skip(hi as int), group_size as nat) =~= before + seq![rest]);
            } else {
                assert(group@ =~= rest.take(group_size as int));
                assert(rest.skip(group_size as int) =~= v@.skip(hi as int));
                assert(before.push(group@) + chunks(v@.skip(hi as int), group_size as nat) =~= before + (seq![group@]
                    + chunks(v@.skip(hi as int), group_size as nat)));
            }
        }
        lo = hi;
    }
    assert(views(groups@) + chunks(v@.skip(lo as int), group_size as nat) =~= views(groups@));
    join(&groups, "-")
}

/// The bytes of the random number in a key.
pub const NONCE_LEN: usize = 8;

/// The bytes of a private or public key.
pub const KEY_LEN: usize = 32;

/// The key for a number and its signature.
pub open spec fn key_text(nonce: Seq<u8>, signature: Seq<u8>) -> Seq<char> {
    "SPK-"@ + joined(chunks(base32_text(nonce + signature), 5), "-"@)
}

/// Writes the key for a number and its signature.
pub fn license_key(nonce: &Vec<u8>, signature: &Vec<u8>) -> (s: String)
    requires
        nonce@.len() == NONCE_LEN,
        signature@.len() == 64,
    ensures
        s@ == key_text(nonce@, signature@),
{
    let mut payload: Vec<u8> = Vec::new();
    let mut i: usize = 0;
    while i < nonce.len()
        invariant
            i <= nonce@.len(),
            payload@ == nonce@.take(i as int),
        decreases nonce@.len() - i,
    {
        payload.push(nonce[i]);
        i = i + 1;
    }
    let mut j: usize = 0;
    assert(payload@ =~= nonce@ + signature@.take(0));
    while j < signature.len()
        invariant
            j <= signature@.len(),
            payload@ == nonce@ + signature@.take(j as int),
        decreases signature@.len() - j,
    {
        payload.push(signature[j]);
        j = j + 1;
        assert(payload@ =~= nonce@ + signature@.take(j as int));
    }
    assert(payload@ =~= nonce@ + signature@);
    let grouped = group_with_dashes(base32_encode(&payload).as_str(), 5);
    let mut s = "SPK-".to_owned();
    s.append(grouped.as_str());
    s
}

/// Why a private key is refused.
#[derive(Clone, Copy, PartialEq, Eq, Structural, Debug)]
pub enum KeyError {
    NotHex,
    WrongLength,
}

/// What is wrong with the text of a private key, where something is.
pub open spec fn private_key_problem(text: Seq<char>) -> Option<KeyError> {
    match hex_bytes(trimmed(text)) {
        None => Some(KeyError::NotHex),
        Some(b) => if b.len() == KEY_LEN {
            None
        } else {
            Some(KeyError::WrongLength)
        },
    }
}

/// The sentence for a refused key.
pub fn key_error_text(e: KeyError) -> (s: &'static str)
    ensures
        s@ == match e {
            KeyError::NotHex => "not valid hex"@,
            KeyError::WrongLength => "private key must be exactly 32 bytes (64 hex characters)."@,
        },
{
    match e {
        KeyError::NotHex => "not valid hex",
        KeyError::WrongLength => "private key must be exactly 32 bytes (64 hex characters).",
    }
}

/// Reads a private key.
pub fn read_private_key(text: &str) -> (r: Result<Vec<u8>, KeyError>)
    ensures
        match r {
            Ok(k) => private_key_problem(text@) is None && hex_bytes(trimmed(text@)) == Some(k@) && k@.len() == KEY_LEN,
            Err(e) => private_key_problem(text@) == Some(e),
        },
{
    match hex_decode(trim(text).as_str()) {
        None => Err(KeyError::NotHex),
        Some(k) => if k.len() == KEY_LEN {
            Ok(k)
        } else {
            Err(KeyError::WrongLength)
        },
    }
}

/// Issues one new key under a private key: some number, and its signature.
pub fn issue(private_key_hex: &str) -> (r: Result<String, KeyError>)
    ensures
        match r {
            Ok(s) => {
                &&& private_key_problem(private_key_hex@) is None
                &&& exists|nonce: Seq<u8>|
                    nonce.len() == NONCE_LEN && s@ == #[trigger] key_text(
                        nonce,
                        signature_of(hex_bytes(trimmed(private_key_hex@))->0, nonce),
                    )
            },
            Err(e) => private_key_problem(private_key_hex@) == Some(e),
        },
{
    match read_private_key(private_key_hex) {
        Err(e) => Err(e),
        Ok(key) => {
            let nonce = random_bytes(NONCE_LEN);
            let signature = ed25519_sign(&key, &nonce);
            Ok(license_key(&nonce, &signature))
        },
    }
}

/// A new pair of keys, in hexadecimal text.
#[derive(Debug)]
pub struct KeyPair {
    pub private_hex: String,
    pub public_hex: String,
}

/// The pair of keys for the bytes of a private one.
pub fn key_pair_of(private: &Vec<u8>) -> (p: KeyPair)
    requires
        private@.len() == KEY_LEN,
    ensures
        p.private_hex@ == hex_text(private@),
        p.public_hex@ == hex_text(public_key_of(private@)),
{
    let public = ed25519_public(private);
    KeyPair { private_hex: hex_encode(private), public_hex: hex_encode(&public) }
}

/// Makes a new pair of keys; the private one can be read back.
pub fn generate_keypair() -> (p: KeyPair)
    ensures
        private_key_problem(p.private_hex@) is None,
        p.public_hex@ == hex_text(public_key_of(hex_bytes(trimmed(p.private_hex@))->0)),
{
    let private = random_bytes(KEY_LEN);
    let p = key_pair_of(&private);
    proof {
        law_hex_round_trip(private@);
        lemma_hex_is_trimmed(private@);
    }
    p
}

proof fn lemma_hex_is_trimmed(bytes: Seq<u8>)
    requires
        bytes.len() > 0,
    ensures
        trimmed(hex_text(bytes)) == hex_text(bytes),
{
    let s = hex_text(bytes);
    law_hex_round_trip(bytes);
    assert(crate::codec::hex_digit(s[0]) is Some);
    assert(crate::codec::hex_digit(s[s.len() - 1]) is Some);
    crate::text::lemma_trim_fixed(s);
}

/// What a pair of keys is made of signs: a key issued under the private half
/// of a new pair is made with the bytes that the pair stands for.
pub proof fn law_pair_can_issue(private: Seq<u8>)
    requires
        private.len() == KEY_LEN,
    ensures
        private_key_problem(hex_text(private)) is None,
        hex_bytes(trimmed(hex_text(private))) == Some(private),
{
    law_hex_round_trip(private);
    lemma_hex_is_trimmed(private);
}

} // verus!
