//! The cryptographic functions and the long arithmetic that pairing and
//! mirroring call, on plain byte strings.

use vstd::arithmetic::power::pow;
use vstd::prelude::*;

use crate::octets::{be_min, be_value};
use crate::text::{digits_value, hex_lower};

verus! {

/// The SHA-512 hash of a byte string.
pub uninterp spec fn sha512_digest(data: Seq<u8>) -> Seq<u8>;

/// The bytes that HKDF with SHA-512 derives.
pub uninterp spec fn hkdf_sha512_okm(
    secret: Seq<u8>,
    salt: Seq<u8>,
    info: Seq<u8>,
    len: nat,
) -> Seq<u8>;

/// The ChaCha20-Poly1305 ciphertext with its tag.
pub uninterp spec fn chacha20poly1305_sealed(
    key: Seq<u8>,
    nonce: Seq<u8>,
    plaintext: Seq<u8>,
) -> Seq<u8>;

/// The Ed25519 public key of a secret key.
pub uninterp spec fn ed25519_public(secret: Seq<u8>) -> Seq<u8>;

/// The Ed25519 signature of a message under a secret key.
pub uninterp spec fn ed25519_signature(secret: Seq<u8>, message: Seq<u8>) -> Seq<u8>;

/// The X25519 public key of a secret key.
pub uninterp spec fn x25519_public(secret: Seq<u8>) -> Seq<u8>;

/// The X25519 secret that a secret key and a peer's public key share.
pub uninterp spec fn x25519_shared(secret: Seq<u8>, peer: Seq<u8>) -> Seq<u8>;

/// `data` combined with the AES-128 key stream in counter mode, the counter a
/// big endian number of 128 bits that starts at `iv`.
pub uninterp spec fn aes128_ctr_stream(key: Seq<u8>, iv: Seq<u8>, data: Seq<u8>) -> Seq<u8>;

/// `Sha512::digest` of sha2: the hash is a function of the data and has 64 bytes.
#[verifier::external_body]
pub(crate) fn sha512(data: &[u8]) -> (out: Vec<u8>)
    ensures
        out@ == sha512_digest(data@),
        out@.len() == 64,
{
    <sha2::Sha512 as sha2::Digest>::digest(data).to_vec()
}

/// `Hkdf::<Sha512>::expand` of hkdf, after `Hkdf::new` on the salt and the
/// secret: it fails exactly where more than 255 hash outputs are asked for,
/// and otherwise fills the length asked for with a function of its inputs.
#[verifier::external_body]
pub(crate) fn hkdf_sha512(secret: &[u8], salt: &[u8], info: &[u8], len: usize) -> (out: Option<
    Vec<u8>,
>)
    ensures
        out is Some <==> len <= 255 * 64,
        out matches Some(okm) ==> okm@ == hkdf_sha512_okm(secret@, salt@, info@, len as nat)
            && okm@.len() == len,
{
    let mut okm = vec![0_u8; len];
    let kdf = hkdf::Hkdf::<sha2::Sha512>::new(Some(salt), secret);
    kdf.expand(info, &mut okm).ok()?;
    Some(okm)
}

/// `Aead::encrypt` of chacha20poly1305 with no associated data: it fails
/// exactly where the plaintext fills 2^32 - 1 blocks of 64 bytes or more, and
/// otherwise gives the ciphertext and a tag of 16 bytes.
#[verifier::external_body]
pub(crate) fn chacha20poly1305_seal(key: &[u8], nonce: &[u8], plaintext: &[u8]) -> (out: Option<
    Vec<u8>,
>)
    requires
        key@.len() == 32,
        nonce@.len() == 12,
    ensures
        out is Some <==> plaintext@.len() / 64 < 0xffff_ffff,
        out matches Some(sealed) ==> sealed@ == chacha20poly1305_sealed(key@, nonce@, plaintext@)
            && sealed@.len() == plaintext@.len() + 16,
{
    let key = chacha20poly1305::Key::from_slice(key);
    let aead = <chacha20poly1305::ChaCha20Poly1305 as chacha20poly1305::KeyInit>::new(key);
    let nonce = chacha20poly1305::Nonce::from_slice(nonce);
    chacha20poly1305::aead::Aead::encrypt(&aead, nonce, plaintext).ok()
}

/// `SigningKey::generate` of ed25519-dalek with the operating system's random
/// numbers: some secret key of 32 bytes.
#[verifier::external_body]
pub(crate) fn ed25519_generate() -> (secret: Vec<u8>)
    ensures
        secret@.len() == 32,
{
    ed25519_dalek::SigningKey::generate(&mut rand::rngs::OsRng).to_bytes().to_vec()
}

/// `SigningKey::verifying_key` of ed25519-dalek: the public key of 32 bytes.
#[verifier::external_body]
pub(crate) fn ed25519_public_key(secret: &[u8]) -> (public: Vec<u8>)
    requires
        secret@.len() == 32,
    ensures
        public@ == ed25519_public(secret@),
        public@.len() == 32,
{
    let key = ed25519_dalek::SigningKey::from_bytes(secret.try_into().unwrap());
    key.verifying_key().to_bytes().to_vec()
}

/// `Signer::sign` of ed25519-dalek: the signature of 64 bytes, which depends
/// on the key and the message alone.
#[verifier::external_body]
pub(crate) fn ed25519_sign(secret: &[u8], message: &[u8]) -> (signature: Vec<u8>)
    requires
        secret@.len() == 32,
    ensures
        signature@ == ed25519_signature(secret@, message@),
        signature@.len() == 64,
{
    let key = ed25519_dalek::SigningKey::from_bytes(secret.try_into().unwrap());
    ed25519_dalek::Signer::sign(&key, message).to_bytes().to_vec()
}

/// `PublicKey::from` of x25519-dalek: the public key of 32 bytes.
#[verifier::external_body]
pub(crate) fn x25519_public_key(secret: &[u8]) -> (public: Vec<u8>)
    requires
        secret@.len() == 32,
    ensures
        public@ == x25519_public(secret@),
        public@.len() == 32,
{
    let bytes: [u8; 32] = secret.try_into().unwrap();
    x25519_dalek::PublicKey::from(&x25519_dalek::StaticSecret::from(bytes)).as_bytes().to_vec()
}

/// `StaticSecret::diffie_hellman` of x25519-dalek: the shared secret of 32 bytes.
#[verifier::external_body]
pub(crate) fn x25519_agree(secret: &[u8], peer: &[u8]) -> (shared: Vec<u8>)
    requires
        secret@.len() == 32,
        peer@.len() == 32,
    ensures
        shared@ == x25519_shared(secret@, peer@),
        shared@.len() == 32,
{
    let own: [u8; 32] = secret.try_into().unwrap();
    let theirs: [u8; 32] = peer.try_into().unwrap();
    let key = x25519_dalek::StaticSecret::from(own);
    key.diffie_hellman(&x25519_dalek::PublicKey::from(theirs)).as_bytes().to_vec()
}

/// `StreamCipher::apply_keystream` of ctr's `Ctr128BE<Aes128>`: as many bytes
/// as were given, and a second application gives the data back.
#[verifier::external_body]
pub(crate) fn aes128_ctr(key: &[u8], iv: &[u8], data: &[u8]) -> (out: Vec<u8>)
    requires
        key@.len() == 16,
        iv@.len() == 16,
    ensures
        out@ == aes128_ctr_stream(key@, iv@, data@),
        out@.len() == data@.len(),
        aes128_ctr_stream(key@, iv@, out@) == data@,
{
    let mut out = data.to_vec();
    let mut cipher = <ctr::Ctr128BE<aes::Aes128> as aes::cipher::KeyIvInit>::new(
        key.into(),
        iv.into(),
    );
    aes::cipher::StreamCipher::apply_keystream(&mut cipher, &mut out);
    out
}

/// `RngCore::fill_bytes` of rand's thread generator: some `n` bytes.
#[verifier::external_body]
pub(crate) fn random_bytes(n: usize) -> (out: Vec<u8>)
    ensures
        out@.len() == n,
{
    let mut out = vec![0_u8; n];
    rand::RngCore::fill_bytes(&mut rand::thread_rng(), &mut out);
    out
}

/// `Rng::gen_range` of rand: some number from `low` to `high`.
#[verifier::external_body]
pub(crate) fn random_in(low: u8, high: u8) -> (n: u8)
    requires
        low <= high,
    ensures
        low <= n <= high,
{
    rand::Rng::gen_range(&mut rand::thread_rng(), low..=high)
}

/// `hex::encode`: two lower case digits for each byte.
#[verifier::external_body]
pub(crate) fn hex_encode(bytes: &[u8]) -> (out: String)
    ensures
        out@ == hex_lower(bytes@),
{
    hex::encode(bytes)
}

/// The identifier that a text spells, in any of the forms that uuid reads.
pub uninterp spec fn uuid_parsed(text: Seq<char>) -> Option<u128>;

/// Whether an identifier is one of version four and of the usual variant.
pub open spec fn is_version_four(id: u128) -> bool {
    &&& id as int / 0x1000_0000_0000_0000_0000 % 16 == 4
    &&& id as int / 0x4000_0000_0000_0000 % 4 == 2
}

/// `Uuid::new_v4` of uuid: some identifier of version four and of the usual
/// variant; its other bits are random.
#[verifier::external_body]
pub(crate) fn random_uuid() -> (id: u128)
    ensures
        is_version_four(id),
{
    uuid::Uuid::new_v4().as_u128()
}

/// `Uuid::try_parse` of uuid: the identifier that the text spells, if it does.
#[verifier::external_body]
pub(crate) fn uuid_parse(text: &str) -> (id: Option<u128>)
    ensures
        id == uuid_parsed(text@),
{
    uuid::Uuid::try_parse(text).ok().map(|u| u.as_u128())
}

/// `Num::from_str_radix` of num-bigint in base sixteen, on text made of digits
/// alone: the number that the digits spell, in its shortest form.
#[verifier::external_body]
pub(crate) fn big_from_hex(digits: &str) -> (out: Vec<u8>)
    requires
        digits@.len() > 0,
        digits_value(digits@, 16) is Some,
    ensures
        out@ == be_min(digits_value(digits@, 16)->0),
{
    let n = <num_bigint::BigUint as num_traits::Num>::from_str_radix(digits, 16).unwrap();
    n.to_bytes_be()
}

/// `BigUint::modpow` of num-bigint: base to the exponent, modulo a modulus
/// that is not zero.
#[verifier::external_body]
pub(crate) fn big_mod_pow(base: &[u8], exponent: &[u8], modulus: &[u8]) -> (out: Vec<u8>)
    requires
        be_value(modulus@) > 0,
    ensures
        out@ == be_min(
            (pow(be_value(base@) as int, be_value(exponent@)) % be_value(modulus@) as int) as nat,
        ),
{
    let base = num_bigint::BigUint::from_bytes_be(base);
    let exponent = num_bigint::BigUint::from_bytes_be(exponent);
    base.modpow(&exponent, &num_bigint::BigUint::from_bytes_be(modulus)).to_bytes_be()
}

/// Multiplication of num-bigint.
#[verifier::external_body]
pub(crate) fn big_mul(a: &[u8], b: &[u8]) -> (out: Vec<u8>)
    ensures
        out@ == be_min(be_value(a@) * be_value(b@)),
{
    (num_bigint::BigUint::from_bytes_be(a) * num_bigint::BigUint::from_bytes_be(b)).to_bytes_be()
}

/// Addition of num-bigint.
#[verifier::external_body]
pub(crate) fn big_add(a: &[u8], b: &[u8]) -> (out: Vec<u8>)
    ensures
        out@ == be_min(be_value(a@) + be_value(b@)),
{
    (num_bigint::BigUint::from_bytes_be(a) + num_bigint::BigUint::from_bytes_be(b)).to_bytes_be()
}

/// The remainder of num-bigint's division by a number that is not zero.
#[verifier::external_body]
pub(crate) fn big_rem(a: &[u8], n: &[u8]) -> (out: Vec<u8>)
    requires
        be_value(n@) > 0,
    ensures
        out@ == be_min(be_value(a@) % be_value(n@)),
{
    (num_bigint::BigUint::from_bytes_be(a) % num_bigint::BigUint::from_bytes_be(n)).to_bytes_be()
}

/// Subtraction of num-bigint's signed numbers: whether the difference is
/// negative, and its magnitude.
#[verifier::external_body]
pub(crate) fn big_sub(a: &[u8], b: &[u8]) -> (out: (bool, Vec<u8>))
    ensures
        out.0 == (be_value(a@) < be_value(b@)),
        out.0 ==> out.1@ == be_min((be_value(b@) - be_value(a@)) as nat),
        !out.0 ==> out.1@ == be_min((be_value(a@) - be_value(b@)) as nat),
{
    let a = num_bigint::BigInt::from_bytes_be(num_bigint::Sign::Plus, a);
    let b = num_bigint::BigInt::from_bytes_be(num_bigint::Sign::Plus, b);
    let (sign, magnitude) = (a - b).to_bytes_be();
    (sign == num_bigint::Sign::Minus, magnitude)
}

} // verus!
