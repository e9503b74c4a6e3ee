//! Trusted boundary to the cryptographic and encoding crates.
//!
//! Every function here is a thin wrapper around one outside computation,
//! with a contract over named results. The names stand for what the
//! outside code returns; they are functions of the argument bytes alone.

use std::io::Read;
use std::io::Write;

use vstd::prelude::*;

verus! {

/// The SHA-256 digest of a byte sequence.
pub uninterp spec fn sha256_of(b: Seq<u8>) -> Seq<u8>;

/// The order of the secp256k1 group, written over its two 128-bit limbs.
pub open spec fn secp256k1_order() -> int {
    0xFFFFFFFFFFFFFFFFFFFFFFFFFFFFFFFEu128 * crate::did::lo_size()
        + 0xBAAEDCE6AF48A03BBFD25E8CD0364141u128
}

/// Whether a byte sequence parses as a valid secp256k1 secret key: 32
/// bytes holding a nonzero scalar below the group order.
pub open spec fn sec_ok(sk: Seq<u8>) -> bool {
    &&& sk.len() == 32
    &&& 0 < crate::bytes_be::bytes_be_int(sk)
    &&& crate::bytes_be::bytes_be_int(sk) < secp256k1_order()
}

/// The 64-byte raw public key derived from a secret key.
pub uninterp spec fn pub_of(sk: Seq<u8>) -> Seq<u8>;

/// The 65-byte recoverable ECDSA signature (r, s, recovery id) that the
/// deterministic signer produces for a secret key and a 32-byte digest.
pub uninterp spec fn sig_of(sk: Seq<u8>, digest: Seq<u8>) -> Seq<u8>;

/// The raw public key that signature recovery yields for a digest and a
/// 65-byte signature, or `None` when recovery fails.
pub uninterp spec fn rec_of(digest: Seq<u8>, sig: Seq<u8>) -> Option<Seq<u8>>;

/// The base58 form of a byte sequence.
pub uninterp spec fn b58_of(b: Seq<u8>) -> Seq<u8>;

/// What base58 decoding yields, or `None` for ill-formed input.
pub uninterp spec fn b58dec_of(b: Seq<u8>) -> Option<Seq<u8>>;

/// The base58 character form of a byte sequence.
pub uninterp spec fn b58str_of(b: Seq<u8>) -> Seq<char>;

/// What base58 decoding of a character sequence yields, or `None` for
/// ill-formed input.
pub uninterp spec fn b58strdec_of(s: Seq<char>) -> Option<Seq<u8>>;

/// Relies on sha2's SHA-256: a 32-byte digest, a function of the input
/// bytes alone.
#[verifier::external_body]
pub fn sha256(b: &Vec<u8>) -> (r: Vec<u8>)
    ensures
        r@ == sha256_of(b@),
        r@.len() == 32,
{
    let d = <sha2::Sha256 as sha2::Digest>::digest(b.as_slice());
    d.to_vec()
}

/// Relies on libsecp256k1::SecretKey::parse_slice: it accepts exactly
/// the 32-byte big-endian scalars that are nonzero and below the group
/// order, which is what `sec_ok` spells out.
#[verifier::external_body]
pub fn check_secret(sk: &Vec<u8>) -> (r: bool)
    ensures
        r == sec_ok(sk@),
{
    libsecp256k1::SecretKey::parse_slice(sk.as_slice()).is_ok()
}

/// Relies on libsecp256k1::PublicKey::from_secret_key and serialize: the
/// public key is a function of the secret key; its raw form is 64 bytes
/// (the serialized form carries one leading tag byte, dropped here).
#[verifier::external_body]
pub fn ecdsa_pubkey(sk: &Vec<u8>) -> (r: Option<Vec<u8>>)
    ensures
        r is Some <==> sec_ok(sk@),
        r matches Some(p) ==> p@ == pub_of(sk@) && p@.len() == 64,
{
    let k = libsecp256k1::SecretKey::parse_slice(sk.as_slice()).ok()?;
    let p = libsecp256k1::PublicKey::from_secret_key(&k);
    Some(p.serialize()[1..].to_vec())
}

/// Relies on libsecp256k1::sign: deterministic (RFC 6979 nonces), and the
/// produced signature recovers to the signer's public key.
#[verifier::external_body]
pub fn ecdsa_sign(sk: &Vec<u8>, digest: &Vec<u8>) -> (r: Option<Vec<u8>>)
    requires
        digest@.len() == 32,
    ensures
        r is Some <==> sec_ok(sk@),
        r matches Some(s) ==> s@ == sig_of(sk@, digest@) && s@.len() == 65 && rec_of(
            digest@,
            s@,
        ) == Some(pub_of(sk@)),
{
    let k = libsecp256k1::SecretKey::parse_slice(sk.as_slice()).ok()?;
    let m = libsecp256k1::Message::parse_slice(digest.as_slice()).ok()?;
    let (sig, rid) = libsecp256k1::sign(&m, &k);
    let mut out = sig.serialize().to_vec();
    out.push(rid.serialize());
    Some(out)
}

/// Relies on libsecp256k1::recover: a function of the digest and the
/// signature bytes; yields the raw 64-byte public key or fails.
#[verifier::external_body]
pub fn ecdsa_recover(digest: &Vec<u8>, sig: &Vec<u8>) -> (r: Option<Vec<u8>>)
    requires
        digest@.len() == 32,
    ensures
        r is Some <==> rec_of(digest@, sig@) is Some,
        r matches Some(p) ==> rec_of(digest@, sig@) == Some(p@) && p@.len() == 64,
{
    if sig.len() != 65 {
        return None;
    }
    let s = libsecp256k1::Signature::parse_standard_slice(&sig.as_slice()[..64]).ok()?;
    let rid = libsecp256k1::RecoveryId::parse(sig[64]).ok()?;
    let m = libsecp256k1::Message::parse_slice(digest.as_slice()).ok()?;
    let p = libsecp256k1::recover(&m, &s, &rid).ok()?;
    Some(p.serialize()[1..].to_vec())
}

/// Relies on bs58 encoding: a function of the input bytes, reversed
/// exactly by bs58 decoding.
#[verifier::external_body]
pub fn b58_encode(b: &Vec<u8>) -> (r: Vec<u8>)
    ensures
        r@ == b58_of(b@),
        b58dec_of(r@) == Some(b@),
{
    bs58::encode(b.as_slice()).into_vec()
}

/// Relies on bs58 decoding: a function of the input bytes.
#[verifier::external_body]
pub fn b58_decode(b: &Vec<u8>) -> (r: Option<Vec<u8>>)
    ensures
        r is Some <==> b58dec_of(b@) is Some,
        r matches Some(v) ==> b58dec_of(b@) == Some(v@),
{
    bs58::decode(b.as_slice()).into_vec().ok()
}

/// Relies on bs58 encoding into its string form: a function of the input
/// bytes, the same length as the byte form, reversed exactly by bs58
/// decoding.
#[verifier::external_body]
pub fn b58_encode_string(b: &Vec<u8>) -> (r: String)
    ensures
        r@ == b58str_of(b@),
        r@.len() == b58_of(b@).len(),
        b58strdec_of(r@) == Some(b@),
{
    bs58::encode(b.as_slice()).into_string()
}

/// Relies on bs58 decoding of a string's characters: a function of the
/// characters alone.
#[verifier::external_body]
pub fn b58_decode_string(s: &str) -> (r: Option<Vec<u8>>)
    ensures
        r is Some <==> b58strdec_of(s@) is Some,
        r matches Some(v) ==> b58strdec_of(s@) == Some(v@),
{
    bs58::decode(s).into_vec().ok()
}

/// The gzip form of a byte sequence at the highest compression level.
pub uninterp spec fn gzip_of(b: Seq<u8>) -> Seq<u8>;

/// What gzip decompression yields, or `None` for ill-formed input.
pub uninterp spec fn gunzip_of(b: Seq<u8>) -> Option<Seq<u8>>;

/// Relies on flate2's gzip encoder at level 9: a function of the input
/// bytes, reversed exactly by its decoder. Writing into a `Vec` sink
/// never fails, so the writer's results carry no error here.
#[verifier::external_body]
pub fn gzip_encode(b: &Vec<u8>) -> (r: Vec<u8>)
    ensures
        r@ == gzip_of(b@),
        gunzip_of(r@) == Some(b@),
{
    let mut e = flate2::write::GzEncoder::new(Vec::new(), flate2::Compression::new(9));
    let _ = e.write_all(b.as_slice());
    e.finish().unwrap_or_default()
}

/// Relies on flate2's gzip decoder: a function of the input bytes; fails
/// on input that is not a gzip stream.
#[verifier::external_body]
pub fn gzip_decode(b: &Vec<u8>) -> (r: Option<Vec<u8>>)
    ensures
        r is Some <==> gunzip_of(b@) is Some,
        r matches Some(v) ==> gunzip_of(b@) == Some(v@),
{
    let mut out: Vec<u8> = Vec::new();
    let mut d = flate2::read::GzDecoder::new(b.as_slice());
    d.read_to_end(&mut out).ok()?;
    Some(out)
}

/// Relies on uuid::Uuid::new_v4 for fresh transaction identifiers; nothing
/// is assumed of the value.
#[verifier::external_body]
pub fn random_u128() -> (r: u128) {
    uuid::Uuid::new_v4().as_u128()
}

/// Relies on uuid::Uuid::new_v4 as a source of 32 random bytes; nothing
/// is assumed of the value beyond its length.
#[verifier::external_body]
pub fn random_bytes_32() -> (r: Vec<u8>)
    ensures
        r@.len() == 32,
{
    let mut out = uuid::Uuid::new_v4().into_bytes().to_vec();
    out.extend_from_slice(&uuid::Uuid::new_v4().into_bytes());
    out
}

} // verus!
