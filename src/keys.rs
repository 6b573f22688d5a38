use vstd::prelude::*;
use crate::types::PublicKey;

verus! {

/// Whether secp256k1 accepts the bytes as an encoded curve point.
pub uninterp spec fn is_curve_point(b: Seq<u8>) -> bool;

/// SHA-256 of the bytes.
pub uninterp spec fn sha256_of(b: Seq<u8>) -> Seq<u8>;

/// Relies on `secp256k1::PublicKey::from_slice` (through `bitcoin`): whether the 33 bytes
/// parse as a compressed public key.
#[verifier::external_body]
fn parses_as_public_key(bytes: &[u8; 33]) -> (r: bool)
    ensures
        r == is_curve_point(bytes@),
{
    bitcoin::secp256k1::PublicKey::from_slice(bytes).is_ok()
}

/// Relies on `bitcoin::hashes::sha256::Hash::hash`: the SHA-256 digest of the bytes.
#[verifier::external_body]
pub(crate) fn sha256(bytes: &[u8; 32]) -> (r: [u8; 32])
    ensures
        r@ == sha256_of(bytes@),
{
    let digest = <bitcoin::hashes::sha256::Hash as bitcoin::hashes::Hash>::hash(bytes);
    <bitcoin::hashes::sha256::Hash as bitcoin::hashes::Hash>::into_inner(digest)
}

/// Whether a character is a hexadecimal digit, in either case.
pub open spec fn is_hex_digit(c: char) -> bool {
    ('0' <= c && c <= '9') || ('a' <= c && c <= 'f') || ('A' <= c && c <= 'F')
}

/// The value of a hexadecimal digit.
pub open spec fn hex_value(c: char) -> nat {
    if '0' <= c && c <= '9' {
        (c as nat - '0' as nat) as nat
    } else if 'a' <= c && c <= 'f' {
        (c as nat - 'a' as nat + 10) as nat
    } else {
        (c as nat - 'A' as nat + 10) as nat
    }
}

/// Whether the text is an even number of hexadecimal digits.
pub open spec fn is_hex(s: Seq<char>) -> bool {
    s.len() % 2 == 0 && forall|i: int| 0 <= i < s.len() ==> is_hex_digit(#[trigger] s[i])
}

/// The bytes that hexadecimal text spells, two digits to a byte, the high half first.
pub open spec fn hex_bytes(s: Seq<char>) -> Seq<u8> {
    Seq::new(
        s.len() / 2,
        |i: int| (16 * hex_value(s[2 * i]) + hex_value(s[2 * i + 1])) as u8,
    )
}

/// The public key that hexadecimal text spells: 66 digits whose 33 bytes secp256k1 accepts.
pub open spec fn pubkey_from_hex(s: Seq<char>) -> Option<Seq<u8>> {
    if s.len() == 66 && is_hex(s) && is_curve_point(hex_bytes(s)) {
        Some(hex_bytes(s))
    } else {
        None
    }
}

fn hex_digit(c: char) -> (r: Option<u8>)
    ensures
        match r {
            Some(v) => is_hex_digit(c) && v as nat == hex_value(c),
            None => !is_hex_digit(c),
        },
{
    if '0' <= c && c <= '9' {
        Some(((c as u32) - ('0' as u32)) as u8)
    } else if 'a' <= c && c <= 'f' {
        Some(((c as u32) - ('a' as u32) + 10) as u8)
    } else if 'A' <= c && c <= 'F' {
        Some(((c as u32) - ('A' as u32) + 10) as u8)
    } else {
        None
    }
}

impl PublicKey {
    /// Parses a public key from its hexadecimal form: exactly 66 digits, spelling 33 bytes
    /// that are a valid compressed key.
    pub fn from_hex(s: &str) -> (r: Option<PublicKey>)
        ensures
            match pubkey_from_hex(s@) {
                Some(b) => r is Some && r->Some_0.bytes@ == b,
                None => r is None,
            },
    {
        let n = s.unicode_len();
        if n != 66 {
            return None;
        }
        let mut bytes: [u8; 33] = [0u8; 33];
        let mut i: usize = 0;
        while i < 33
            invariant
                i <= 33,
                n == s@.len(),
                n == 66,
                bytes@.len() == 33,
                forall|j: int| 0 <= j < 2 * i ==> is_hex_digit(#[trigger] s@[j]),
                forall|j: int| 0 <= j < i ==> bytes@[j] == hex_bytes(s@)[j],
            decreases 33 - i,
        {
            let hi = hex_digit(s.get_char(2 * i));
            let lo = hex_digit(s.get_char(2 * i + 1));
            match (hi, lo) {
                (Some(h), Some(l)) => {
                    bytes[i] = h * 16 + l;
                    assert(bytes@[i as int] == hex_bytes(s@)[i as int]);
                },
                _ => {
                    assert(!is_hex(s@)) by {
                        if !is_hex_digit(s@[2 * i as int]) {
                        } else {
                            assert(!is_hex_digit(s@[2 * i + 1]));
                        }
                    }
                    return None;
                },
            }
            i = i + 1;
        }
        assert(is_hex(s@));
        assert(bytes@ =~= hex_bytes(s@));
        if parses_as_public_key(&bytes) {
            Some(PublicKey { bytes })
        } else {
            None
        }
    }
}

} // verus!
