//! Pairing by a PIN: the client's side of the SRP exchange over TLV messages.

use vstd::arithmetic::power::pow;
use vstd::prelude::*;
use vstd::string::*;
use vstd::utf8::encode_utf8;

use crate::airplay::rtsp::{
    fresh_request, next_cseq, with_body, Method, Request, RtspManager, RtspReqBuilder,
    RtspResponse,
};
use crate::airplay::tlv::{
    decode, decoded, encode, encoded, items_of, Item, TLV_TYPE_ENCRYPTED_DATA,
    TLV_TYPE_ERROR, TLV_TYPE_IDENTIFIER, TLV_TYPE_METHOD, TLV_TYPE_PROOF, TLV_TYPE_PUBLIC_KEY,
    TLV_TYPE_SALT, TLV_TYPE_SIGNATURE, TLV_TYPE_STATE,
};
use crate::crypto::{
    big_add, big_from_hex, big_mod_pow, big_mul, big_rem, big_sub, chacha20poly1305_seal,
    chacha20poly1305_sealed, ed25519_generate, ed25519_public, ed25519_public_key, ed25519_sign,
    ed25519_signature, hkdf_sha512, hkdf_sha512_okm, random_bytes, sha512, sha512_digest,
};
use crate::error::FerricastError;
use crate::octets::{
    all_zero, be_min, be_min_round_trip, be_value, bytes_eq, lemma_be_value_one, pad_to, padded,
    push_all, xor_bytes, xored,
};
use crate::text::{byte_list, decimal, digits_value, join2, utf8_bytes};

verus! {

/// The prime of the 3072 bit group, in hexadecimal digits.
pub const SRP_N: &'static str = "FFFFFFFFFFFFFFFFC90FDAA22168C234C4C6628B80DC1CD129024E088A67CC74020BBEA63B139B22514A08798E3404DDEF9519B3CD3A431B302B0A6DF25F14374FE1356D6D51C245E485B576625E7EC6F44C42E9A637ED6B0BFF5CB6F406B7EDEE386BFB5A899FA5AE9F24117C4B1FE649286651ECE45B3DC2007CB8A163BF0598DA48361C55D39A69163FA8FD24CF5F83655D23DCA3AD961C62F356208552BB9ED529077096966D670C354E4ABC9804F1746C08CA18217C32905E462E36CE3BE39E772C180E86039B2783A2EC07A28FB5C55DF06F4C52C9DE2BCBF6955817183995497CEA956AE515D2261898FA051015728E5A8AAAC42DAD33170D04507A33A85521ABDF1CBA64ECFB850458DBEF0A8AEA71575D060C7DB3970F85A6E1E4C7ABF5AE8CDB0933D71E8C94E04A25619DCEE3D2261AD2EE6BF12FFA06D98A0864D87602733EC86A64521F2B18177B200CBBE117577A615D6C770988C0BAD946E208E24FA074E5AB3143DB5BFCE0FD108E4B82D120A93AD2CAFFFFFFFFFFFFFFFF";

/// The generator of the group.
pub const SRP_G: u8 = 5;

/// The bytes that a group element is padded to.
pub const SRP_WIDTH: usize = 384;

/// The prime of the group.
pub open spec fn srp_n() -> nat {
    digits_value(SRP_N@, 16)->0
}

/// The prime is written in hexadecimal digits and is larger than zero.
pub proof fn srp_n_is_number()
    ensures
        SRP_N@.len() > 0,
        digits_value(SRP_N@, 16) is Some,
        srp_n() > 0,
{
    reveal_strlit("FFFFFFFFFFFFFFFFC90FDAA22168C234C4C6628B80DC1CD129024E088A67CC74020BBEA63B139B22514A08798E3404DDEF9519B3CD3A431B302B0A6DF25F14374FE1356D6D51C245E485B576625E7EC6F44C42E9A637ED6B0BFF5CB6F406B7EDEE386BFB5A899FA5AE9F24117C4B1FE649286651ECE45B3DC2007CB8A163BF0598DA48361C55D39A69163FA8FD24CF5F83655D23DCA3AD961C62F356208552BB9ED529077096966D670C354E4ABC9804F1746C08CA18217C32905E462E36CE3BE39E772C180E86039B2783A2EC07A28FB5C55DF06F4C52C9DE2BCBF6955817183995497CEA956AE515D2261898FA051015728E5A8AAAC42DAD33170D04507A33A85521ABDF1CBA64ECFB850458DBEF0A8AEA71575D060C7DB3970F85A6E1E4C7ABF5AE8CDB0933D71E8C94E04A25619DCEE3D2261AD2EE6BF12FFA06D98A0864D87602733EC86A64521F2B18177B200CBBE117577A615D6C770988C0BAD946E208E24FA074E5AB3143DB5BFCE0FD108E4B82D120A93AD2CAFFFFFFFFFFFFFFFF");
    let s = SRP_N@;
    assert(s.len() == 768);
    assert forall|i: int| 0 <= i < s.len() implies is_hex_upper(#[trigger] s[i]) by {}
    lemma_hex_run(s);
}

spec fn is_hex_upper(c: char) -> bool {
    ('0' <= c && c <= '9') || ('A' <= c && c <= 'F')
}

proof fn lemma_hex_run(s: Seq<char>)
    requires
        forall|i: int| 0 <= i < s.len() ==> is_hex_upper(#[trigger] s[i]),
    ensures
        digits_value(s, 16) is Some,
        s.len() > 0 && s[0] != '0' ==> digits_value(s, 16)->0 > 0,
    decreases s.len(),
{
    if s.len() > 0 {
        assert forall|i: int| 0 <= i < s.drop_last().len() implies is_hex_upper(
            #[trigger] s.drop_last()[i],
        ) by {
            assert(s.drop_last()[i] == s[i]);
        }
        lemma_hex_run(s.drop_last());
        assert(is_hex_upper(s[s.len() - 1]));
    }
}

/// The secret exponent of the password: the salt and the hashed login, hashed.
pub open spec fn srp_x(salt: Seq<u8>, pin: Seq<char>) -> nat {
    be_value(sha512_digest(salt + sha512_digest(encode_utf8("Pair-Setup:"@ + pin))))
}

/// The multiplier of the verifier.
pub open spec fn srp_k() -> nat {
    be_value(
        sha512_digest(
            padded(be_min(srp_n()), SRP_WIDTH as nat) + padded(
                be_min(SRP_G as nat),
                SRP_WIDTH as nat,
            ),
        ),
    )
}

/// The client's exponent: the random number, or one where that is zero.
pub open spec fn srp_a(random: Seq<u8>) -> nat {
    if be_value(random) == 0 {
        1
    } else {
        be_value(random)
    }
}

/// The generator to the power `e` in the group.
pub open spec fn srp_power(e: nat) -> nat {
    (pow(SRP_G as int, e) % srp_n() as int) as nat
}

/// The number that mixes both public keys.
pub open spec fn srp_u(client: nat, server: nat) -> nat {
    be_value(
        sha512_digest(
            padded(be_min(client), SRP_WIDTH as nat) + padded(be_min(server), SRP_WIDTH as nat),
        ),
    )
}

/// The server's public key with the verifier taken off, kept above zero by one
/// addition of the prime.
pub open spec fn srp_base(x: nat, server: nat) -> nat {
    let shift = (srp_k() * srp_power(x)) % srp_n();
    if server < shift {
        (srp_n() - (shift - server)) as nat
    } else {
        (server - shift) as nat
    }
}

/// What the client derives from the exchange.
pub struct SrpOutcome {
    pub client_public: Seq<u8>,
    pub session_key: Seq<u8>,
    pub proof: Seq<u8>,
}

/// What the client derives from the PIN, the server's salt and public key and
/// its own random number.
pub open spec fn srp_outcome(
    pin: Seq<char>,
    salt: Seq<u8>,
    server_pub: Seq<u8>,
    random: Seq<u8>,
) -> SrpOutcome {
    let x = srp_x(salt, pin);
    let a = srp_a(random);
    let client = srp_power(a);
    let server = be_value(server_pub);
    let secret = (pow(srp_base(x, server) as int, srp_u(client, server) * x + a)
        % srp_n() as int) as nat;
    let key = sha512_digest(be_min(secret));
    SrpOutcome {
        client_public: be_min(client),
        session_key: key,
        proof: sha512_digest(
            xored(sha512_digest(be_min(srp_n())), sha512_digest(be_min(SRP_G as nat)))
                + sha512_digest(encode_utf8("Pair-Setup"@)) + salt + be_min(client) + server_pub
                + key,
        ),
    }
}

/// Whether a server's public key can be used: neither zero nor the prime.
pub open spec fn server_key_usable(server_pub: Seq<u8>) -> bool {
    be_value(server_pub) != 0 && be_value(server_pub) != srp_n()
}

/// The client's public key, the session key and the proof of the PIN.
pub struct SrpProof {
    pub client_public: Vec<u8>,
    pub session_key: Vec<u8>,
    pub proof: Vec<u8>,
}

impl View for SrpProof {
    type V = SrpOutcome;

    open spec fn view(&self) -> SrpOutcome {
        SrpOutcome {
            client_public: self.client_public@,
            session_key: self.session_key@,
            proof: self.proof@,
        }
    }
}

fn joined(a: &[u8], b: &[u8]) -> (out: Vec<u8>)
    ensures
        out@ == a@ + b@,
{
    let mut out: Vec<u8> = Vec::new();
    push_all(&mut out, a);
    push_all(&mut out, b);
    assert(out@ =~= a@ + b@);
    out
}

/// The client's answer to the server's salt and public key, computed from the
/// PIN and a random number.
pub fn srp_client_proof(pin: &str, salt: &[u8], server_pub: &[u8], random: &[u8]) -> (out: Result<
    SrpProof,
    FerricastError,
>)
    ensures
        match out {
            Ok(p) => server_key_usable(server_pub@) && p@ == srp_outcome(
                pin@,
                salt@,
                server_pub@,
                random@,
            ),
            Err(e) => !server_key_usable(server_pub@) && e.is_protocol(
                "Invalid server public key"@,
            ),
        },
{
    proof {
        srp_n_is_number();
        be_min_round_trip(srp_n());
        be_min_round_trip(SRP_G as nat);
    }
    let n: Vec<u8> = big_from_hex(SRP_N);
    let g: Vec<u8> = vec![SRP_G];
    assert(g@ =~= be_min(SRP_G as nat));
    // x
    let login: String = join2("Pair-Setup:", pin);
    let inner: Vec<u8> = sha512(utf8_bytes(login.as_str()).as_slice());
    let x: Vec<u8> = sha512(joined(salt, inner.as_slice()).as_slice());
    let ghost xv = srp_x(salt@, pin@);
    // k
    let n_padded: Vec<u8> = pad_to(big_from_hex(SRP_N), SRP_WIDTH);
    let g_padded: Vec<u8> = pad_to(vec![SRP_G], SRP_WIDTH);
    let k: Vec<u8> = sha512(joined(n_padded.as_slice(), g_padded.as_slice()).as_slice());
    assert(seq![SRP_G] =~= be_min(SRP_G as nat));
    assert(be_value(k@) == srp_k());
    // a and the client's public key
    let mut a: Vec<u8> = Vec::new();
    push_all(&mut a, random);
    if all_zero(random) {
        a = vec![1u8];
        proof {
            lemma_be_value_one(a@);
        }
    } else {
        assert(a@ =~= random@);
    }
    let ghost av = srp_a(random@);
    assert(be_value(a@) == av);
    let client: Vec<u8> = big_mod_pow(g.as_slice(), a.as_slice(), n.as_slice());
    let ghost cv = srp_power(av);
    assert(client@ == be_min(cv));
    // the server's public key
    let ghost bv = be_value(server_pub@);
    let (_, distance) = big_sub(server_pub, n.as_slice());
    proof {
        be_min_round_trip((bv - srp_n()) as nat);
        be_min_round_trip((srp_n() - bv) as nat);
    }
    if all_zero(server_pub) || all_zero(distance.as_slice()) {
        return Err(FerricastError::Protocol("Invalid server public key".to_owned()));
    }
    let zero: Vec<u8> = vec![0u8];
    proof {
        lemma_be_value_one(zero@);
    }
    let server: Vec<u8> = big_add(server_pub, zero.as_slice());
    assert(server@ == be_min(bv));
    // u
    let client_padded: Vec<u8> = pad_to(big_mod_pow(g.as_slice(), a.as_slice(), n.as_slice()), SRP_WIDTH);
    let server_padded: Vec<u8> = pad_to(server, SRP_WIDTH);
    let u: Vec<u8> = sha512(joined(client_padded.as_slice(), server_padded.as_slice()).as_slice());
    let ghost uv = srp_u(cv, bv);
    assert(be_value(u@) == uv);
    // the base
    let gx: Vec<u8> = big_mod_pow(g.as_slice(), x.as_slice(), n.as_slice());
    proof {
        be_min_round_trip(srp_power(xv));
        be_min_round_trip(srp_k() * srp_power(xv));
        be_min_round_trip((srp_k() * srp_power(xv)) % srp_n());
    }
    let kgx: Vec<u8> = big_rem(big_mul(k.as_slice(), gx.as_slice()).as_slice(), n.as_slice());
    let ghost shift = (srp_k() * srp_power(xv)) % srp_n();
    assert(be_value(kgx@) == shift);
    let (negative, magnitude) = big_sub(server_pub, kgx.as_slice());
    proof {
        be_min_round_trip((shift - bv) as nat);
        be_min_round_trip((bv - shift) as nat);
        be_min_round_trip((srp_n() - (shift - bv)) as nat);
    }
    let base: Vec<u8> = if negative {
        let (_, wrapped) = big_sub(n.as_slice(), magnitude.as_slice());
        assert(shift - bv <= srp_n());
        wrapped
    } else {
        magnitude
    };
    assert(be_value(base@) == srp_base(xv, bv));
    // the secret
    let ux: Vec<u8> = big_mul(u.as_slice(), x.as_slice());
    proof {
        be_min_round_trip(uv * xv);
        be_min_round_trip(uv * xv + av);
    }
    let exponent: Vec<u8> = big_add(ux.as_slice(), a.as_slice());
    let secret: Vec<u8> = big_mod_pow(base.as_slice(), exponent.as_slice(), n.as_slice());
    let session_key: Vec<u8> = sha512(secret.as_slice());
    // the proof
    let n_hash: Vec<u8> = sha512(n.as_slice());
    let g_hash: Vec<u8> = sha512(g.as_slice());
    let name_hash: Vec<u8> = sha512(utf8_bytes("Pair-Setup").as_slice());
    let mut input: Vec<u8> = xor_bytes(n_hash.as_slice(), g_hash.as_slice());
    push_all(&mut input, name_hash.as_slice());
    push_all(&mut input, salt);
    push_all(&mut input, client.as_slice());
    push_all(&mut input, server_pub);
    push_all(&mut input, session_key.as_slice());
    let proof_bytes: Vec<u8> = sha512(input.as_slice());
    Ok(SrpProof { client_public: client, session_key, proof: proof_bytes })
}

/// The bytes of the first message: method zero, state one.
pub open spec fn m1_bytes() -> Seq<u8> {
    encoded(seq![(TLV_TYPE_METHOD, seq![0u8]), (TLV_TYPE_STATE, seq![1u8])])
}

/// The bytes of the third message: the padded public key and the proof.
pub open spec fn m3_bytes(outcome: SrpOutcome) -> Seq<u8> {
    encoded(
        seq![
            (TLV_TYPE_STATE, seq![3u8]),
            (TLV_TYPE_PUBLIC_KEY, padded(outcome.client_public, SRP_WIDTH as nat)),
            (TLV_TYPE_PROOF, outcome.proof),
        ],
    )
}

/// The proof that the server has to answer with.
pub open spec fn server_proof(outcome: SrpOutcome) -> Seq<u8> {
    sha512_digest(outcome.client_public + outcome.proof + outcome.session_key)
}

/// The identity that the fifth message carries, before it is encrypted.
pub open spec fn m5_identity(
    key: Seq<u8>,
    secret: Seq<u8>,
    public_key: Seq<u8>,
    id: Seq<u8>,
) -> Seq<u8> {
    let sign_key = hkdf_sha512_okm(
        key,
        encode_utf8("Pair-Setup-Controller-Sign-Salt"@),
        encode_utf8("Pair-Setup-Controller-Sign-Info"@),
        32,
    );
    encoded(
        seq![
            (TLV_TYPE_IDENTIFIER, id),
            (TLV_TYPE_PUBLIC_KEY, public_key),
            (TLV_TYPE_SIGNATURE, ed25519_signature(secret, sign_key + id + public_key)),
        ],
    )
}

/// The nonce of the fifth message.
pub open spec fn m5_nonce() -> Seq<u8> {
    seq![0u8, 0, 0, 0, 0x50, 0x53, 0x2d, 0x4d, 0x73, 0x67, 0x30, 0x35]
}

/// The bytes of the fifth message: the encrypted identity and state five.
pub open spec fn m5_bytes(
    key: Seq<u8>,
    secret: Seq<u8>,
    public_key: Seq<u8>,
    id: Seq<u8>,
) -> Seq<u8> {
    let encrypt_key = hkdf_sha512_okm(
        key,
        encode_utf8("Pair-Setup-Encrypt-Salt"@),
        encode_utf8("Pair-Setup-Encrypt-Info"@),
        32,
    );
    encoded(
        seq![
            (
                TLV_TYPE_ENCRYPTED_DATA,
                chacha20poly1305_sealed(
                    encrypt_key,
                    m5_nonce(),
                    m5_identity(key, secret, public_key, id),
                ),
            ),
            (TLV_TYPE_STATE, seq![5u8]),
        ],
    )
}

fn m1_message() -> (out: Result<Vec<u8>, FerricastError>)
    ensures
        out matches Ok(b) && b@ == m1_bytes(),
{
    let method: Vec<u8> = vec![0u8];
    let state: Vec<u8> = vec![1u8];
    let items: Vec<(u8, &[u8])> = vec![
        (TLV_TYPE_METHOD, method.as_slice()),
        (TLV_TYPE_STATE, state.as_slice()),
    ];
    assert(items_of(items@) =~= seq![
        (TLV_TYPE_METHOD, seq![0u8]),
        (TLV_TYPE_STATE, seq![1u8]),
    ]) by {
        assert(method@ =~= seq![0u8]);
        assert(state@ =~= seq![1u8]);
    }
    encode(items)
}

fn m3_message(p: &SrpProof) -> (out: Result<Vec<u8>, FerricastError>)
    ensures
        out matches Ok(b) && b@ == m3_bytes(p@),
{
    let state: Vec<u8> = vec![3u8];
    let mut public: Vec<u8> = Vec::new();
    push_all(&mut public, p.client_public.as_slice());
    assert(public@ =~= p.client_public@);
    let public: Vec<u8> = pad_to(public, SRP_WIDTH);
    let items: Vec<(u8, &[u8])> = vec![
        (TLV_TYPE_STATE, state.as_slice()),
        (TLV_TYPE_PUBLIC_KEY, public.as_slice()),
        (TLV_TYPE_PROOF, p.proof.as_slice()),
    ];
    assert(items_of(items@) =~= seq![
        (TLV_TYPE_STATE, seq![3u8]),
        (TLV_TYPE_PUBLIC_KEY, padded(p@.client_public, SRP_WIDTH as nat)),
        (TLV_TYPE_PROOF, p@.proof),
    ]) by {
        assert(state@ =~= seq![3u8]);
    }
    encode(items)
}

/// Whether `e` is what the reading of a message with an error record reports.
pub open spec fn is_peer_error(message: Seq<u8>, e: FerricastError) -> bool {
    decoded(message).dom().contains(TLV_TYPE_ERROR) && e.is_tlv(
        "Airplay device send an error, with code "@ + byte_list(decoded(message)[TLV_TYPE_ERROR]),
    )
}

/// What the second message leads to: the salt, then the public key, then a
/// usable public key are asked for, in this order.
pub open spec fn m2_refused(m2: Seq<u8>, e: FerricastError) -> bool {
    let fields = decoded(m2);
    if fields.dom().contains(TLV_TYPE_ERROR) {
        is_peer_error(m2, e)
    } else if !fields.dom().contains(TLV_TYPE_SALT) {
        e.is_protocol("Invalid AirPlay Response no salt in TLV"@)
    } else if !fields.dom().contains(TLV_TYPE_PUBLIC_KEY) {
        e.is_protocol("Invalid airplay Response no public key in TLV"@)
    } else {
        &&& !server_key_usable(fields[TLV_TYPE_PUBLIC_KEY])
        &&& e.is_protocol("Invalid server public key"@)
    }
}

/// Whether the second message can be answered.
pub open spec fn m2_usable(m2: Seq<u8>) -> bool {
    let fields = decoded(m2);
    &&& !fields.dom().contains(TLV_TYPE_ERROR)
    &&& fields.dom().contains(TLV_TYPE_SALT)
    &&& fields.dom().contains(TLV_TYPE_PUBLIC_KEY)
    &&& server_key_usable(fields[TLV_TYPE_PUBLIC_KEY])
}

/// What the client derives from a usable second message.
pub open spec fn m2_outcome(m2: Seq<u8>, pin: Seq<char>, random: Seq<u8>) -> SrpOutcome {
    srp_outcome(pin, decoded(m2)[TLV_TYPE_SALT], decoded(m2)[TLV_TYPE_PUBLIC_KEY], random)
}

/// Answers the server's salt and public key.
pub fn accept_m2(m2: &[u8], pin: &str, random: &[u8]) -> (out: Result<SrpProof, FerricastError>)
    ensures
        match out {
            Ok(p) => m2_usable(m2@) && p@ == m2_outcome(m2@, pin@, random@),
            Err(e) => !m2_usable(m2@) && m2_refused(m2@, e),
        },
{
    broadcast use vstd::std_specs::hash::group_hash_axioms;

    match decode(m2) {
        Err(e) => Err(e),
        Ok(fields) => {
            match fields.get(&TLV_TYPE_SALT) {
                None => Err(
                    FerricastError::Protocol("Invalid AirPlay Response no salt in TLV".to_owned()),
                ),
                Some(salt) => match fields.get(&TLV_TYPE_PUBLIC_KEY) {
                    None => Err(
                        FerricastError::Protocol(
                            "Invalid airplay Response no public key in TLV".to_owned(),
                        ),
                    ),
                    Some(key) => srp_client_proof(pin, salt.as_slice(), key.as_slice(), random),
                },
            }
        },
    }
}

/// Whether the fourth message proves that the server knows the PIN.
pub open spec fn m4_accepted(m4: Seq<u8>, outcome: SrpOutcome) -> bool {
    let fields = decoded(m4);
    &&& !fields.dom().contains(TLV_TYPE_ERROR)
    &&& fields.dom().contains(TLV_TYPE_PROOF)
    &&& fields[TLV_TYPE_PROOF] == server_proof(outcome)
}

/// Why the fourth message was refused.
pub open spec fn m4_refused(m4: Seq<u8>, e: FerricastError) -> bool {
    let fields = decoded(m4);
    if fields.dom().contains(TLV_TYPE_ERROR) {
        is_peer_error(m4, e)
    } else if !fields.dom().contains(TLV_TYPE_PROOF) {
        e.is_protocol("Invalid TLV, no proof"@)
    } else {
        e.is_protocol("server proof mismatch"@)
    }
}

/// Checks the server's proof.
pub fn accept_m4(m4: &[u8], p: &SrpProof) -> (out: Result<(), FerricastError>)
    ensures
        match out {
            Ok(()) => m4_accepted(m4@, p@),
            Err(e) => !m4_accepted(m4@, p@) && m4_refused(m4@, e),
        },
{
    broadcast use vstd::std_specs::hash::group_hash_axioms;

    match decode(m4) {
        Err(e) => Err(e),
        Ok(fields) => {
            match fields.get(&TLV_TYPE_PROOF) {
                None => Err(FerricastError::Protocol("Invalid TLV, no proof".to_owned())),
                Some(given) => {
                    let mut input: Vec<u8> = joined(
                        p.client_public.as_slice(),
                        p.proof.as_slice(),
                    );
                    push_all(&mut input, p.session_key.as_slice());
                    let expected: Vec<u8> = sha512(input.as_slice());
                    if bytes_eq(expected.as_slice(), given.as_slice()) {
                        Ok(())
                    } else {
                        Err(FerricastError::Protocol("server proof mismatch".to_owned()))
                    }
                },
            }
        },
    }
}

/// Derives `len` bytes from the shared secret.
pub fn hkdf(secret: &[u8], salt: &[u8], info: &[u8], len: usize) -> (out: Result<
    Vec<u8>,
    FerricastError,
>)
    ensures
        match out {
            Ok(okm) => len <= 255 * 64 && okm@ == hkdf_sha512_okm(
                secret@,
                salt@,
                info@,
                len as nat,
            ) && okm@.len() == len,
            Err(e) => len > 255 * 64 && e.is_protocol("Cannot expand HKDF"@),
        },
{
    match hkdf_sha512(secret, salt, info, len) {
        Some(okm) => Ok(okm),
        None => Err(FerricastError::Protocol("Cannot expand HKDF".to_owned())),
    }
}

/// The encrypted identity of the client, signed with its long term key.
pub fn m5_message(p: &SrpProof, secret: &[u8], public_key: &[u8], id: &[u8]) -> (out: Result<
    Vec<u8>,
    FerricastError,
>)
    requires
        secret@.len() == 32,
    ensures
        match out {
            Ok(b) => m5_identity(p@.session_key, secret@, public_key@, id@).len() / 64
                < 0xffff_ffff && b@ == m5_bytes(p@.session_key, secret@, public_key@, id@),
            Err(e) => m5_identity(p@.session_key, secret@, public_key@, id@).len() / 64
                >= 0xffff_ffff && e.is_protocol("Failed to encrypt TLV msg, Error"@),
        },
{
    let key: &[u8] = p.session_key.as_slice();
    let encrypt_key: Vec<u8> = match hkdf(
        key,
        utf8_bytes("Pair-Setup-Encrypt-Salt").as_slice(),
        utf8_bytes("Pair-Setup-Encrypt-Info").as_slice(),
        32,
    ) {
        Ok(k) => k,
        Err(e) => {
            return Err(e);
        },
    };
    let sign_key: Vec<u8> = match hkdf(
        key,
        utf8_bytes("Pair-Setup-Controller-Sign-Salt").as_slice(),
        utf8_bytes("Pair-Setup-Controller-Sign-Info").as_slice(),
        32,
    ) {
        Ok(k) => k,
        Err(e) => {
            return Err(e);
        },
    };
    let mut signed: Vec<u8> = joined(sign_key.as_slice(), id);
    push_all(&mut signed, public_key);
    let signature: Vec<u8> = ed25519_sign(secret, signed.as_slice());
    let items: Vec<(u8, &[u8])> = vec![
        (TLV_TYPE_IDENTIFIER, id),
        (TLV_TYPE_PUBLIC_KEY, public_key),
        (TLV_TYPE_SIGNATURE, signature.as_slice()),
    ];
    assert(items_of(items@) =~= seq![
        (TLV_TYPE_IDENTIFIER, id@),
        (TLV_TYPE_PUBLIC_KEY, public_key@),
        (TLV_TYPE_SIGNATURE, signature@),
    ]);
    let identity: Vec<u8> = match encode(items) {
        Ok(b) => b,
        Err(e) => {
            return Err(e);
        },
    };
    let nonce: Vec<u8> = vec![0u8, 0, 0, 0, 0x50, 0x53, 0x2d, 0x4d, 0x73, 0x67, 0x30, 0x35];
    assert(nonce@ =~= m5_nonce());
    let sealed: Vec<u8> = match chacha20poly1305_seal(
        encrypt_key.as_slice(),
        nonce.as_slice(),
        identity.as_slice(),
    ) {
        Some(s) => s,
        None => {
            return Err(FerricastError::Protocol("Failed to encrypt TLV msg, Error".to_owned()));
        },
    };
    let state: Vec<u8> = vec![5u8];
    let outer: Vec<(u8, &[u8])> = vec![
        (TLV_TYPE_ENCRYPTED_DATA, sealed.as_slice()),
        (TLV_TYPE_STATE, state.as_slice()),
    ];
    assert(items_of(outer@) =~= seq![
        (TLV_TYPE_ENCRYPTED_DATA, sealed@),
        (TLV_TYPE_STATE, seq![5u8]),
    ]) by {
        assert(state@ =~= seq![5u8]);
    }
    encode(outer)
}

/// A POST of `body` to the pairing end point.
pub open spec fn setup_request(cseq: u64, body: Seq<u8>) -> Request {
    with_body(
        Request {
            path: "/pair-setup"@,
            content_type: "application/octet-stream"@,
            method: Method::POST,
            ..fresh_request(cseq)
        },
        body,
    )
}

/// The next request, a POST of `body` to the pairing end point.
pub fn post_setup(manager: &mut RtspManager, body: Vec<u8>) -> (request: RtspReqBuilder)
    ensures
        final(manager).last() == next_cseq(old(manager).last()),
        request@ == setup_request(final(manager).last(), body@),
{
    manager.builder().post().content_type("application/octet-stream".to_owned()).path(
        "/pair-setup".to_owned(),
    ).body(body)
}

/// How far the exchange has come.
#[derive(Clone, Copy, Debug, PartialEq, Eq, Structural)]
pub enum PairStage {
    AwaitM2,
    AwaitM4,
    AwaitM6,
    Finished,
}

/// What the caller does next.
pub enum PairAction {
    /// Send this request and hand back the reply.
    Send(RtspReqBuilder),
    /// The exchange is over.
    Paired,
    /// The exchange has failed.
    Failed(FerricastError),
}

/// The client's side of the exchange, one reply at a time.
pub struct PinPairSetup {
    pub stage: PairStage,
    pub attempts: u8,
    pub pin: String,
    pub id: Vec<u8>,
    pub secret: Vec<u8>,
    pub public_key: Vec<u8>,
    pub random: Vec<u8>,
    pub derived: Option<SrpProof>,
}

/// How often the first message is sent before the exchange is given up.
pub const M1_ATTEMPTS: u8 = 3;

/// Starts the exchange: its state, and the first request.
pub fn pin_pair_setup(
    manager: &mut RtspManager,
    secret: Vec<u8>,
    public_key: Vec<u8>,
    pin: String,
    id: Vec<u8>,
    random: Vec<u8>,
) -> (out: (PinPairSetup, RtspReqBuilder))
    requires
        secret@.len() == 32,
    ensures
        out.0.wf(),
        out.0.stage == PairStage::AwaitM2,
        out.0.attempts == 1,
        out.0.pin == pin,
        out.0.id == id,
        out.0.secret == secret,
        out.0.public_key == public_key,
        out.0.random == random,
        final(manager).last() == next_cseq(old(manager).last()),
        out.1@ == setup_request(final(manager).last(), m1_bytes()),
{
    let request: RtspReqBuilder = match m1_message() {
        Ok(m1) => post_setup(manager, m1),
        Err(_) => post_setup(manager, Vec::new()),
    };
    let setup = PinPairSetup {
        stage: PairStage::AwaitM2,
        attempts: 1,
        pin,
        id,
        secret,
        public_key,
        random,
        derived: None,
    };
    (setup, request)
}

/// Whether a reply carries any content.
pub open spec fn has_content(reply: RtspResponse) -> bool {
    reply.body() matches Some(c) && c@.len() > 0
}

/// Whether `e` is the refusal of a reply that does not report success or has
/// no content.
pub open spec fn reply_refused(reply: RtspResponse, e: FerricastError) -> bool {
    if !(200 <= reply.status_code() <= 299) {
        e.is_rtsp("RTSP Response failed with code "@ + decimal(reply.status_code() as nat))
    } else {
        reply.body() is None && e.is_rtsp("RTSP Response has no content"@)
    }
}

/// Whether a reply reports success and has content.
pub open spec fn reply_usable(reply: RtspResponse) -> bool {
    200 <= reply.status_code() <= 299 && reply.body() is Some
}

fn checked_content(reply: &RtspResponse) -> (out: Result<&Vec<u8>, FerricastError>)
    ensures
        match out {
            Ok(c) => reply_usable(*reply) && reply.body() == Some(*c),
            Err(e) => !reply_usable(*reply) && reply_refused(*reply, e),
        },
{
    match reply.is_ok() {
        Ok(()) => reply.content(),
        Err(e) => Err(e),
    }
}

/// What a reply leads to; `cseq` is the number of the last request.
pub open spec fn takes_reply(
    before: PinPairSetup,
    reply: RtspResponse,
    cseq: u64,
    action: PairAction,
    after: PinPairSetup,
) -> bool {
    &&& before.stage == PairStage::AwaitM2 && !has_content(reply) ==> if before.attempts
        < M1_ATTEMPTS {
        &&& after.stage == PairStage::AwaitM2
        &&& after.attempts == before.attempts + 1
        &&& action matches PairAction::Send(r) && r@ == setup_request(
            cseq,
            m1_bytes(),
        )
    } else {
        action matches PairAction::Failed(e) && e.is_protocol(
            "Airplay did not send a valid response with m2"@,
        )
    }
    &&& before.stage == PairStage::AwaitM2 && has_content(reply) ==> {
        let m2 = reply.body()->0@;
        if m2_usable(m2) {
            let outcome = m2_outcome(m2, before.pin@, before.random@);
            &&& after.stage == PairStage::AwaitM4
            &&& after.derived matches Some(p) && p@ == outcome
            &&& action matches PairAction::Send(r) && r@ == setup_request(
                cseq,
                m3_bytes(outcome),
            )
        } else {
            action matches PairAction::Failed(e) && m2_refused(m2, e)
        }
    }
    &&& before.stage == PairStage::AwaitM4 ==> {
        let outcome = before.derived->0@;
        if !reply_usable(reply) {
            action matches PairAction::Failed(e) && reply_refused(reply, e)
        } else if !m4_accepted(reply.body()->0@, outcome) {
            action matches PairAction::Failed(e) && m4_refused(reply.body()->0@, e)
        } else if m5_identity(
            outcome.session_key,
            before.secret@,
            before.public_key@,
            before.id@,
        ).len() / 64 < 0xffff_ffff {
            &&& after.stage == PairStage::AwaitM6
            &&& after.derived == before.derived
            &&& action matches PairAction::Send(r) && r@ == setup_request(
                cseq,
                m5_bytes(
                    outcome.session_key,
                    before.secret@,
                    before.public_key@,
                    before.id@,
                ),
            )
        } else {
            action matches PairAction::Failed(e) && e.is_protocol(
                "Failed to encrypt TLV msg, Error"@,
            )
        }
    }
    &&& before.stage == PairStage::AwaitM6 ==> if reply_usable(reply) {
        action is Paired
    } else {
        action matches PairAction::Failed(e) && reply_refused(reply, e)
    }
}

impl PinPairSetup {
    /// The signing key has its length, and once the second message was
    /// answered the derived values are there.
    pub open spec fn wf(self) -> bool {
        &&& self.secret@.len() == 32
        &&& 1 <= self.attempts <= M1_ATTEMPTS
        &&& (self.stage == PairStage::AwaitM4 || self.stage == PairStage::AwaitM6)
            ==> self.derived is Some
    }

    /// Whether the settings of the exchange are those of `other`.
    pub open spec fn same_settings(self, other: PinPairSetup) -> bool {
        &&& self.pin == other.pin
        &&& self.id == other.id
        &&& self.secret == other.secret
        &&& self.public_key == other.public_key
        &&& self.random == other.random
    }

    /// Takes a reply. An empty second message is asked for again, up to three
    /// times; after that each message either leads to the next request or
    /// ends the exchange.
    pub fn on_reply(&mut self, manager: &mut RtspManager, reply: &RtspResponse) -> (action:
        PairAction)
        requires
            old(self).wf(),
            old(self).stage != PairStage::Finished,
        ensures
            final(self).wf(),
            final(self).same_settings(*old(self)),
            action is Send ==> final(manager).last() == next_cseq(old(manager).last()),
            !(action is Send) ==> final(manager).last() == old(manager).last() && final(self).stage == PairStage::Finished,
            takes_reply(*old(self), *reply, final(manager).last(), action, *final(self)),
    {
        match self.stage {
            PairStage::AwaitM2 => {
                let content: &[u8] = match reply.content() {
                    Ok(c) => c.as_slice(),
                    Err(_) => &[],
                };
                if content.len() == 0 {
                    if self.attempts < M1_ATTEMPTS {
                        self.attempts = self.attempts + 1;
                        match m1_message() {
                            Ok(m1) => {
                                return PairAction::Send(post_setup(manager, m1));
                            },
                            Err(_) => {},
                        }
                    }
                    self.stage = PairStage::Finished;
                    return PairAction::Failed(
                        FerricastError::Protocol(
                            "Airplay did not send a valid response with m2".to_owned(),
                        ),
                    );
                }
                match accept_m2(content, self.pin.as_str(), self.random.as_slice()) {
                    Err(e) => {
                        self.stage = PairStage::Finished;
                        PairAction::Failed(e)
                    },
                    Ok(p) => {
                        match m3_message(&p) {
                            Ok(m3) => {
                                self.derived = Some(p);
                                self.stage = PairStage::AwaitM4;
                                PairAction::Send(post_setup(manager, m3))
                            },
                            Err(e) => {
                                self.stage = PairStage::Finished;
                                PairAction::Failed(e)
                            },
                        }
                    },
                }
            },
            PairStage::AwaitM4 => {
                let content: &Vec<u8> = match checked_content(reply) {
                    Ok(c) => c,
                    Err(e) => {
                        self.stage = PairStage::Finished;
                        return PairAction::Failed(e);
                    },
                };
                let step: Result<Vec<u8>, FerricastError> = match &self.derived {
                    Some(p) => match accept_m4(content.as_slice(), p) {
                        Ok(()) => m5_message(
                            p,
                            self.secret.as_slice(),
                            self.public_key.as_slice(),
                            self.id.as_slice(),
                        ),
                        Err(e) => Err(e),
                    },
                    None => Ok(Vec::new()),
                };
                match step {
                    Ok(m5) => {
                        self.stage = PairStage::AwaitM6;
                        PairAction::Send(post_setup(manager, m5))
                    },
                    Err(e) => {
                        self.stage = PairStage::Finished;
                        PairAction::Failed(e)
                    },
                }
            },
            PairStage::AwaitM6 | PairStage::Finished => {
                self.stage = PairStage::Finished;
                match checked_content(reply) {
                    Ok(_) => PairAction::Paired,
                    Err(e) => PairAction::Failed(e),
                }
            },
        }
    }
}

/// What the user interface has to ask for before pairing.
#[derive(Clone, Copy, Debug, PartialEq, Eq, Structural)]
pub enum PairingChallenge {
    Nothing,
    Pin { digits: u8 },
    Credential,
    Confirm,
}

/// Whether a PIN is shown on the receiver and has to be asked for.
pub open spec fn asks_for_pin(challenge: PairingChallenge) -> bool {
    !(challenge is Nothing) && !(challenge is Credential)
}

/// The request that makes the receiver show a PIN, where the challenge is one
/// that needs it.
pub fn pair_pin(challenge: &PairingChallenge, manager: &mut RtspManager) -> (request: Option<
    RtspReqBuilder,
>)
    ensures
        match request {
            Some(r) => asks_for_pin(*challenge) && final(manager).last() == next_cseq(
                old(manager).last(),
            ) && r@ == (Request {
                path: "/pair-pin-start"@,
                method: Method::POST,
                ..fresh_request(final(manager).last())
            }),
            None => !asks_for_pin(*challenge) && final(manager).last() == old(manager).last(),
        },
{
    match challenge {
        PairingChallenge::Nothing | PairingChallenge::Credential => None,
        PairingChallenge::Pin { .. } | PairingChallenge::Confirm => Some(
            manager.builder().path("/pair-pin-start".to_owned()).post(),
        ),
    }
}

/// The long term key pair of a new client: the secret key and the public key.
pub fn new_client_keys() -> (keys: (Vec<u8>, Vec<u8>))
    ensures
        keys.0@.len() == 32,
        keys.1@ == ed25519_public(keys.0@),
        keys.1@.len() == 32,
{
    let secret: Vec<u8> = ed25519_generate();
    let public: Vec<u8> = ed25519_public_key(secret.as_slice());
    (secret, public)
}

/// A random number for one exchange.
pub fn new_exchange_random() -> (random: Vec<u8>)
    ensures
        random@.len() == 32,
{
    random_bytes(32)
}

/// The server's proof is accepted exactly where it was made from the same
/// public key, client proof and session key.
pub proof fn matching_server_is_accepted(m4: Seq<u8>, outcome: SrpOutcome)
    requires
        m4 == encoded(seq![(TLV_TYPE_STATE, seq![4u8]), (TLV_TYPE_PROOF, server_proof(outcome))]),
    ensures
        m4_accepted(m4, outcome),
{
    let items: Seq<Item> = seq![
        (TLV_TYPE_STATE, seq![4u8]),
        (TLV_TYPE_PROOF, server_proof(outcome)),
    ];
    crate::airplay::tlv::decode_gives_distinct_item(items, 1);
    crate::airplay::tlv::decode_of_encode(items);
    reveal_with_fuel(crate::airplay::tlv::gathered, 3);
}

/// The public key of a server that knows the PIN and draws the exponent `b`.
pub open spec fn honest_server_key(salt: Seq<u8>, pin: Seq<char>, b: nat) -> nat {
    (srp_k() * srp_power(srp_x(salt, pin)) + srp_power(b)) % srp_n()
}

/// The secret that such a server derives from the client's public key.
pub open spec fn honest_server_secret(
    salt: Seq<u8>,
    pin: Seq<char>,
    b: nat,
    client: nat,
    u: nat,
) -> nat {
    let verifier = srp_power(srp_x(salt, pin));
    (pow(client * pow(verifier as int, u), b) % srp_n() as int) as nat
}

proof fn lemma_base(kv: nat, gb: nat, server: nat, n: nat)
    requires
        n > 0,
        server == (kv + gb) % n,
    ensures
        ({
            let shift = kv % n;
            let base = if server < shift {
                n - (shift - server)
            } else {
                server - shift
            };
            base % n as int == gb % n
        }),
{
    let shift = kv % n;
    let m = n as int;
    let base: int = if server < shift {
        n - (shift - server)
    } else {
        server - shift
    };
    vstd::arithmetic::div_mod::lemma_sub_mod_noop((kv + gb) as int, kv as int, m);
    assert((server - shift) % m == gb as int % m);
    if server < shift {
        vstd::arithmetic::div_mod::lemma_mod_add_multiples_vanish(server - shift, m);
        assert(base == m + (server - shift));
    }
}

proof fn lemma_client_secret(base: nat, b: nat, e: nat, n: nat)
    requires
        n > 0,
        base % n == (pow(SRP_G as int, b) % n as int) as nat % n,
    ensures
        pow(base as int, e) % n as int == pow(SRP_G as int, b * e) % n as int,
{
    let g = SRP_G as int;
    let m = n as int;
    vstd::arithmetic::power::lemma_pow_positive(g, b);
    vstd::arithmetic::div_mod::lemma_mod_twice(pow(g, b), m);
    vstd::arithmetic::power::lemma_pow_mod_noop(base as int, e, m);
    vstd::arithmetic::power::lemma_pow_mod_noop(pow(g, b), e, m);
    vstd::arithmetic::power::lemma_pow_multiplies(g, b, e);
    assert(base as int % m == pow(g, b) % m);
}

proof fn lemma_server_secret(a: nat, x: nat, u: nat, b: nat, n: nat)
    requires
        n > 0,
    ensures
        pow((pow(SRP_G as int, a) % n as int) * pow(pow(SRP_G as int, x) % n as int, u), b)
            % n as int == pow(SRP_G as int, b * (u * x + a)) % n as int,
{
    let g = SRP_G as int;
    let m = n as int;
    let client = pow(g, a) % m;
    let v = pow(g, x) % m;
    let both = client * pow(v, u);
    vstd::arithmetic::div_mod::lemma_mul_mod_noop(client, pow(v, u), m);
    vstd::arithmetic::div_mod::lemma_mod_twice(pow(g, a), m);
    vstd::arithmetic::power::lemma_pow_mod_noop(pow(g, x), u, m);
    vstd::arithmetic::power::lemma_pow_multiplies(g, x, u);
    vstd::arithmetic::div_mod::lemma_mul_mod_noop(pow(g, a), pow(g, x * u), m);
    assert(both % m == (pow(g, a) * pow(g, x * u)) % m);
    vstd::arithmetic::power::lemma_pow_adds(g, a, x * u);
    assert(both % m == pow(g, a + x * u) % m);
    vstd::arithmetic::power::lemma_pow_mod_noop(both, b, m);
    vstd::arithmetic::power::lemma_pow_mod_noop(pow(g, a + x * u), b, m);
    vstd::arithmetic::power::lemma_pow_multiplies(g, a + x * u, b);
    assert((a + x * u) * b == b * (u * x + a)) by (nonlinear_arith);
}

/// A server that knows the PIN derives the session key that the client
/// derives, whatever numbers both draw.
pub proof fn honest_server_agrees(
    pin: Seq<char>,
    salt: Seq<u8>,
    server_pub: Seq<u8>,
    random: Seq<u8>,
    b: nat,
)
    requires
        be_value(server_pub) == honest_server_key(salt, pin, b),
    ensures
        ({
            let client = srp_power(srp_a(random));
            let u = srp_u(client, be_value(server_pub));
            srp_outcome(pin, salt, server_pub, random).session_key == sha512_digest(
                be_min(honest_server_secret(salt, pin, b, client, u)),
            )
        }),
{
    srp_n_is_number();
    let n = srp_n();
    let m = n as int;
    let g = SRP_G as int;
    let x = srp_x(salt, pin);
    let a = srp_a(random);
    let client = srp_power(a);
    let server = be_value(server_pub);
    let u = srp_u(client, server);
    let v = srp_power(x);
    let e = u * x + a;
    vstd::arithmetic::power::lemma_pow_positive(g, a);
    vstd::arithmetic::power::lemma_pow_positive(g, b);
    vstd::arithmetic::power::lemma_pow_positive(g, x);
    assert(client as int == pow(g, a) % m);
    assert(v as int == pow(g, x) % m);
    lemma_base(srp_k() * v, srp_power(b), server, n);
    let base = srp_base(x, server);
    assert(base % n == srp_power(b) % n);
    lemma_client_secret(base, b, e, n);
    lemma_server_secret(a, x, u, b, n);
}

/// The receiver finds in the identity that the fifth message seals what the
/// client is called under the tag of identifiers, its long term key under the
/// tag of public keys, and a signature of both, behind a key that both sides
/// derive, under the client's secret key.
pub proof fn identity_is_read_back(
    key: Seq<u8>,
    secret: Seq<u8>,
    public_key: Seq<u8>,
    id: Seq<u8>,
)
    ensures
        ({
            let fields = decoded(m5_identity(key, secret, public_key, id));
            let sign_key = hkdf_sha512_okm(
                key,
                encode_utf8("Pair-Setup-Controller-Sign-Salt"@),
                encode_utf8("Pair-Setup-Controller-Sign-Info"@),
                32,
            );
            &&& fields.dom().contains(1u8) && fields[1u8] == id
            &&& fields.dom().contains(3u8) && fields[3u8] == public_key
            &&& fields.dom().contains(10u8) && fields[10u8] == ed25519_signature(
                secret,
                sign_key + fields[1u8] + fields[3u8],
            )
        }),
{
    let sign_key = hkdf_sha512_okm(
        key,
        encode_utf8("Pair-Setup-Controller-Sign-Salt"@),
        encode_utf8("Pair-Setup-Controller-Sign-Info"@),
        32,
    );
    let items: Seq<Item> = seq![
        (1u8, id),
        (3u8, public_key),
        (10u8, ed25519_signature(secret, sign_key + id + public_key)),
    ];
    assert(m5_identity(key, secret, public_key, id) == encoded(items));
    crate::airplay::tlv::decode_gives_distinct_item(items, 0);
    crate::airplay::tlv::decode_gives_distinct_item(items, 1);
    crate::airplay::tlv::decode_gives_distinct_item(items, 2);
}

/// The receiver finds in the fifth message the state five and the identity,
/// sealed under a key that both sides derive from the session key and a nonce
/// of four zeros and the name of the message.
pub proof fn fifth_message_is_read_back(
    key: Seq<u8>,
    secret: Seq<u8>,
    public_key: Seq<u8>,
    id: Seq<u8>,
)
    ensures
        ({
            let fields = decoded(m5_bytes(key, secret, public_key, id));
            let encrypt_key = hkdf_sha512_okm(
                key,
                encode_utf8("Pair-Setup-Encrypt-Salt"@),
                encode_utf8("Pair-Setup-Encrypt-Info"@),
                32,
            );
            let nonce = seq![0u8, 0, 0, 0] + seq![
                'P' as u8,
                'S' as u8,
                '-' as u8,
                'M' as u8,
                's' as u8,
                'g' as u8,
                '0' as u8,
                '5' as u8,
            ];
            &&& fields.dom().contains(6u8) && fields[6u8] == seq![5u8]
            &&& fields.dom().contains(5u8) && fields[5u8] == chacha20poly1305_sealed(
                encrypt_key,
                nonce,
                m5_identity(key, secret, public_key, id),
            )
        }),
{
    let encrypt_key = hkdf_sha512_okm(
        key,
        encode_utf8("Pair-Setup-Encrypt-Salt"@),
        encode_utf8("Pair-Setup-Encrypt-Info"@),
        32,
    );
    let nonce = seq![0u8, 0, 0, 0] + seq![
        'P' as u8,
        'S' as u8,
        '-' as u8,
        'M' as u8,
        's' as u8,
        'g' as u8,
        '0' as u8,
        '5' as u8,
    ];
    assert(m5_nonce() =~= nonce);
    let items: Seq<Item> = seq![
        (
            5u8,
            chacha20poly1305_sealed(
                encrypt_key,
                nonce,
                m5_identity(key, secret, public_key, id),
            ),
        ),
        (6u8, seq![5u8]),
    ];
    assert(m5_bytes(key, secret, public_key, id) == encoded(items));
    crate::airplay::tlv::decode_gives_distinct_item(items, 0);
    crate::airplay::tlv::decode_gives_distinct_item(items, 1);
}

/// The receiver finds in the first message the state one and the plain method,
/// and in the third the state three, the client's public key in the width of the
/// group, and the proof.
pub proof fn first_and_third_messages_are_read_back(outcome: SrpOutcome)
    ensures
        ({
            let m1 = decoded(m1_bytes());
            let m3 = decoded(m3_bytes(outcome));
            &&& m1.dom().contains(6u8) && m1[6u8] == seq![1u8]
            &&& m1.dom().contains(0u8) && m1[0u8] == seq![0u8]
            &&& m3.dom().contains(6u8) && m3[6u8] == seq![3u8]
            &&& m3.dom().contains(3u8) && be_value(m3[3u8]) == be_value(outcome.client_public)
            &&& outcome.client_public.len() <= 384 ==> m3[3u8].len() == 384
            &&& m3.dom().contains(4u8) && m3[4u8] == outcome.proof
        }),
{
    let first: Seq<Item> = seq![(0u8, seq![0u8]), (6u8, seq![1u8])];
    assert(m1_bytes() == encoded(first));
    crate::airplay::tlv::decode_gives_distinct_item(first, 0);
    crate::airplay::tlv::decode_gives_distinct_item(first, 1);
    let wide = padded(outcome.client_public, SRP_WIDTH as nat);
    let third: Seq<Item> = seq![(6u8, seq![3u8]), (3u8, wide), (4u8, outcome.proof)];
    assert(m3_bytes(outcome) == encoded(third));
    crate::airplay::tlv::decode_gives_distinct_item(third, 0);
    crate::airplay::tlv::decode_gives_distinct_item(third, 1);
    crate::airplay::tlv::decode_gives_distinct_item(third, 2);
    crate::octets::padding_keeps_value(outcome.client_public, SRP_WIDTH as nat);
}

/// `n` in the width of the group.
pub open spec fn group_bytes(n: nat) -> Seq<u8> {
    padded(be_min(n), 384)
}

/// What SRP with SHA-512, the group of 3072 bits, the generator five and the
/// login "Pair-Setup" makes of both sides' numbers. A server that follows it
/// with the exponent `b` sends the public key B, derives the client's session
/// key from the client's public key, recomputes the client's proof, and answers
/// with a proof that the client accepts.
pub proof fn server_by_the_book_is_met(
    pin: Seq<char>,
    salt: Seq<u8>,
    server_pub: Seq<u8>,
    random: Seq<u8>,
    b: nat,
    m4: Seq<u8>,
)
    requires
        ({
            let n = srp_n();
            let k = be_value(sha512_digest(group_bytes(n) + group_bytes(5)));
            let x = be_value(
                sha512_digest(salt + sha512_digest(encode_utf8("Pair-Setup:"@ + pin))),
            );
            let v = (pow(5, x) % n as int) as nat;
            be_value(server_pub) == (k * v + (pow(5, b) % n as int) as nat) % n
        }),
        be_value(random) != 0,
        ({
            let o = srp_outcome(pin, salt, server_pub, random);
            m4 == encoded(
                seq![
                    (6u8, seq![4u8]),
                    (4u8, sha512_digest(o.client_public + o.proof + o.session_key)),
                ],
            )
        }),
    ensures
        ({
            let o = srp_outcome(pin, salt, server_pub, random);
            let n = srp_n();
            let client = be_value(o.client_public);
            let u = be_value(
                sha512_digest(group_bytes(client) + group_bytes(be_value(server_pub))),
            );
            let x = be_value(
                sha512_digest(salt + sha512_digest(encode_utf8("Pair-Setup:"@ + pin))),
            );
            let v = (pow(5, x) % n as int) as nat;
            let secret = (pow(client * pow(v as int, u), b) % n as int) as nat;
            let group_hash = xored(sha512_digest(be_min(n)), sha512_digest(seq![5u8]));
            &&& client == pow(5, be_value(random)) % n as int
            &&& o.session_key == sha512_digest(be_min(secret))
            &&& o.proof == sha512_digest(
                group_hash + sha512_digest(encode_utf8("Pair-Setup"@)) + salt + o.client_public
                    + server_pub + o.session_key,
            )
            &&& m4_accepted(m4, o)
        }),
{
    srp_n_is_number();
    let o = srp_outcome(pin, salt, server_pub, random);
    let client = srp_power(srp_a(random));
    be_min_round_trip(client);
    assert(be_min(5) =~= seq![5u8]);
    vstd::arithmetic::power::lemma_pow_positive(5, be_value(random));
    honest_server_agrees(pin, salt, server_pub, random, b);
    matching_server_is_accepted(m4, o);
}

/// A server's proof is refused where it is not the one: whoever does not know
/// the session key is not taken for the server.
pub proof fn any_other_proof_is_refused(m4: Seq<u8>, given: Seq<u8>, outcome: SrpOutcome)
    requires
        given != sha512_digest(outcome.client_public + outcome.proof + outcome.session_key),
        m4 == encoded(seq![(6u8, seq![4u8]), (4u8, given)]),
    ensures
        !m4_accepted(m4, outcome),
{
    let items: Seq<Item> = seq![(6u8, seq![4u8]), (4u8, given)];
    crate::airplay::tlv::decode_gives_distinct_item(items, 1);
}

/// The group is the one of 3072 bits, with five as its generator, and its
/// elements take 384 bytes.
pub proof fn group_is_the_one_of_3072_bits()
    ensures
        SRP_G == 5,
        SRP_WIDTH * 8 == 3072,
        SRP_N@.len() * 4 == 3072,
        SRP_N@
            == "FFFFFFFFFFFFFFFFC90FDAA22168C234C4C6628B80DC1CD129024E088A67CC74020BBEA63B139B22514A08798E3404DDEF9519B3CD3A431B302B0A6DF25F14374FE1356D6D51C245E485B576625E7EC6F44C42E9A637ED6B0BFF5CB6F406B7EDEE386BFB5A899FA5AE9F24117C4B1FE649286651ECE45B3DC2007CB8A163BF0598DA48361C55D39A69163FA8FD24CF5F83655D23DCA3AD961C62F356208552BB9ED529077096966D670C354E4ABC9804F1746C08CA18217C32905E462E36CE3BE39E772C180E86039B2783A2EC07A28FB5C55DF06F4C52C9DE2BCBF6955817183995497CEA956AE515D2261898FA051015728E5A8AAAC42DAD33170D04507A33A85521ABDF1CBA64ECFB850458DBEF0A8AEA71575D060C7DB3970F85A6E1E4C7ABF5AE8CDB0933D71E8C94E04A25619DCEE3D2261AD2EE6BF12FFA06D98A0864D87602733EC86A64521F2B18177B200CBBE117577A615D6C770988C0BAD946E208E24FA074E5AB3143DB5BFCE0FD108E4B82D120A93AD2CAFFFFFFFFFFFFFFFF"@,
        srp_n() == digits_value(SRP_N@, 16)->0,
{
    reveal_strlit("FFFFFFFFFFFFFFFFC90FDAA22168C234C4C6628B80DC1CD129024E088A67CC74020BBEA63B139B22514A08798E3404DDEF9519B3CD3A431B302B0A6DF25F14374FE1356D6D51C245E485B576625E7EC6F44C42E9A637ED6B0BFF5CB6F406B7EDEE386BFB5A899FA5AE9F24117C4B1FE649286651ECE45B3DC2007CB8A163BF0598DA48361C55D39A69163FA8FD24CF5F83655D23DCA3AD961C62F356208552BB9ED529077096966D670C354E4ABC9804F1746C08CA18217C32905E462E36CE3BE39E772C180E86039B2783A2EC07A28FB5C55DF06F4C52C9DE2BCBF6955817183995497CEA956AE515D2261898FA051015728E5A8AAAC42DAD33170D04507A33A85521ABDF1CBA64ECFB850458DBEF0A8AEA71575D060C7DB3970F85A6E1E4C7ABF5AE8CDB0933D71E8C94E04A25619DCEE3D2261AD2EE6BF12FFA06D98A0864D87602733EC86A64521F2B18177B200CBBE117577A615D6C770988C0BAD946E208E24FA074E5AB3143DB5BFCE0FD108E4B82D120A93AD2CAFFFFFFFFFFFFFFFF");
    assert(SRP_N@.len() == 768);
}

/// A message of the exchange goes to the pairing end point, as bytes, with its
/// length, under the next number.
pub proof fn messages_go_to_the_pairing_end_point(cseq: u64, body: Seq<u8>)
    ensures
        ({
            let r = setup_request(cseq, body);
            &&& r.method == Method::POST
            &&& r.path == "/pair-setup"@
            &&& r.content_type == "application/octet-stream"@
            &&& r.body == body
            &&& r.cseq == cseq
            &&& r.headers.contains(("Content-Length"@, decimal(body.len())))
        }),
{
    let r = setup_request(cseq, body);
    assert(r.headers.last() == ("Content-Length"@, decimal(body.len())));
    assert(r.headers[r.headers.len() - 1] == ("Content-Length"@, decimal(body.len())));
}

/// What a server's salt and public key lead to is taken from the records with
/// their tags.
pub proof fn salt_and_key_are_taken_by_their_tags(
    salt: Seq<u8>,
    server_pub: Seq<u8>,
    pin: Seq<char>,
    random: Seq<u8>,
)
    requires
        be_value(server_pub) != 0,
        be_value(server_pub) != srp_n(),
    ensures
        ({
            let m2 = encoded(seq![(6u8, seq![2u8]), (2u8, salt), (3u8, server_pub)]);
            &&& m2_usable(m2)
            &&& m2_outcome(m2, pin, random) == srp_outcome(pin, salt, server_pub, random)
        }),
{
    let items: Seq<Item> = seq![(6u8, seq![2u8]), (2u8, salt), (3u8, server_pub)];
    crate::airplay::tlv::decode_gives_distinct_item(items, 1);
    crate::airplay::tlv::decode_gives_distinct_item(items, 2);
    crate::airplay::tlv::only_given_tags_are_decoded(items, 7);
}

/// An empty second message has the first one sent again, three times at most in
/// all; after that pairing has failed.
pub proof fn first_message_is_sent_again(
    before: PinPairSetup,
    reply: RtspResponse,
    cseq: u64,
    action: PairAction,
    after: PinPairSetup,
)
    requires
        takes_reply(before, reply, cseq, action, after),
        before.stage == PairStage::AwaitM2,
        reply.body() matches Some(c) ==> c@.len() == 0,
    ensures
        before.attempts < 3 ==> {
            &&& action matches PairAction::Send(r)
            &&& r@ == setup_request(cseq, m1_bytes())
            &&& after.stage == PairStage::AwaitM2
            &&& after.attempts == before.attempts + 1
        },
        before.attempts >= 3 ==> action is Failed,
{
}

/// Each message leads to the next: the second to the third, the fourth to the
/// fifth where it proves the server, and the sixth to the end.
pub proof fn pairing_goes_message_by_message(
    before: PinPairSetup,
    reply: RtspResponse,
    cseq: u64,
    action: PairAction,
    after: PinPairSetup,
)
    requires
        takes_reply(before, reply, cseq, action, after),
        before.wf(),
        before.stage != PairStage::Finished,
        reply.body() matches Some(c) && c@.len() > 0,
    ensures
        before.stage == PairStage::AwaitM2 && m2_usable(reply.body()->0@) ==> {
            &&& action matches PairAction::Send(r)
            &&& after.derived matches Some(p)
            &&& r@ == setup_request(cseq, m3_bytes(p@))
            &&& after.stage == PairStage::AwaitM4
        },
        before.stage == PairStage::AwaitM2 && !m2_usable(reply.body()->0@) ==> action is Failed,
        before.stage != PairStage::AwaitM2 && reply.status_code() / 100 != 2 ==> action is Failed,
        before.stage == PairStage::AwaitM4 && !m4_accepted(
            reply.body()->0@,
            before.derived->0@,
        ) ==> action is Failed,
        before.stage == PairStage::AwaitM4 && action is Send ==> {
            &&& action matches PairAction::Send(r)
            &&& r@ == setup_request(
                cseq,
                m5_bytes(
                    before.derived->0@.session_key,
                    before.secret@,
                    before.public_key@,
                    before.id@,
                ),
            )
            &&& after.stage == PairStage::AwaitM6
        },
        action is Paired <==> before.stage == PairStage::AwaitM6 && reply.status_code() / 100 == 2,
{
}

/// The receiver is asked to show a PIN for a challenge that needs one or a mere
/// confirmation, and for no other.
pub proof fn pins_are_asked_for_where_they_are_shown(digits: u8)
    ensures
        asks_for_pin(PairingChallenge::Pin { digits }),
        asks_for_pin(PairingChallenge::Confirm),
        !asks_for_pin(PairingChallenge::Nothing),
        !asks_for_pin(PairingChallenge::Credential),
{
}

/// The random number is the client's exponent; where it is zero, one is.
pub proof fn exponents_are_never_zero(random: Seq<u8>)
    ensures
        be_value(random) > 0 ==> srp_a(random) == be_value(random),
        be_value(random) == 0 ==> srp_a(random) == 1,
{
}

} // verus!
