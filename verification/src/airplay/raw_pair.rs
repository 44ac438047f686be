//! Pairing without a PIN: a key exchange and a signature under its secret.

use vstd::prelude::*;
use vstd::string::*;
use vstd::utf8::encode_utf8;

use crate::airplay::features::{Features, SUPPORT_LEGACY_PAIRING};
use crate::airplay::pin_pair::{post_setup, reply_refused, reply_usable, setup_request};
use crate::airplay::rtsp::{headers_text, next_cseq, RtspManager, RtspReqBuilder, RtspResponse};
use crate::crypto::{
    aes128_ctr, aes128_ctr_stream, random_bytes, sha512, sha512_digest, x25519_agree,
    x25519_public, x25519_public_key, x25519_shared,
};
use crate::error::FerricastError;
use crate::octets::{copy_range, push_all};
use crate::text::utf8_bytes;

verus! {

/// The first sixteen bytes of the hash of a label and a secret.
pub open spec fn derived_key(label: Seq<char>, secret: Seq<u8>) -> Seq<u8> {
    sha512_digest(encode_utf8(label) + secret).take(16)
}

/// The first sixteen bytes of the hash of a label and a secret.
pub fn sha512_derive_key(salt: &str, secret: &[u8]) -> (key: Vec<u8>)
    ensures
        key@ == derived_key(salt@, secret@),
        key@.len() == 16,
{
    let mut input: Vec<u8> = utf8_bytes(salt);
    push_all(&mut input, secret);
    let digest: Vec<u8> = sha512(input.as_slice());
    assert(digest@.subrange(0, 16) =~= digest@.take(16));
    copy_range(digest.as_slice(), 0, 16)
}

/// The headers of a verify request, as texts.
pub open spec fn verify_header_texts(features: Features) -> Seq<(Seq<char>, Seq<char>)> {
    if features.has(SUPPORT_LEGACY_PAIRING) {
        Seq::empty()
    } else {
        seq![("X-Apple-PD"@, "1"@)]
    }
}

/// The headers of a verify request: one more where the receiver does not pair
/// the older way.
pub fn verify_headers(features: &Features) -> (headers: Vec<(String, String)>)
    ensures
        headers_text(headers@) == verify_header_texts(*features),
{
    let mut headers: Vec<(String, String)> = Vec::new();
    if !features.supports_legacy_pairing() {
        headers.push(("X-Apple-PD".to_owned(), "1".to_owned()));
        assert(headers_text(headers@) =~= seq![("X-Apple-PD"@, "1"@)]);
    } else {
        assert(headers_text(headers@) =~= Seq::empty());
    }
    headers
}

/// The first verify message: a one in four bytes, the exchange key and the
/// signing key.
pub open spec fn v1_bytes(exchange_public: Seq<u8>, signing_public: Seq<u8>) -> Seq<u8> {
    seq![1u8, 0, 0, 0] + exchange_public + signing_public
}

/// The signature in the second verify message: what stands behind the server's
/// exchange key, decrypted under the secret that both sides share.
pub open spec fn opened_signature(exchange_secret: Seq<u8>, v2: Seq<u8>) -> Seq<u8> {
    let shared = x25519_shared(exchange_secret, v2.take(32));
    aes128_ctr_stream(
        derived_key("Pair-Verify-AES-Key"@, shared),
        derived_key("Pair-Verify-AES-IV"@, shared),
        v2.skip(32),
    )
}

/// What the signature in the second verify message has to cover.
pub open spec fn signed_message(exchange_public: Seq<u8>, v2: Seq<u8>) -> Seq<u8> {
    v2.take(32) + exchange_public
}

/// What the second verify message gives.
pub struct ServerVerify {
    /// The server's signature, decrypted.
    pub signature: Vec<u8>,
    /// What the signature has to cover: both exchange keys, the server's first.
    pub message: Vec<u8>,
}

/// The exchange, one reply at a time.
pub struct RawPair {
    pub signing_public: Vec<u8>,
    pub exchange_secret: Vec<u8>,
    pub exchange_public: Vec<u8>,
}

impl RawPair {
    /// The keys have their lengths and belong together.
    pub open spec fn wf(self) -> bool {
        &&& self.signing_public@.len() == 32
        &&& self.exchange_secret@.len() == 32
        &&& self.exchange_public@ == x25519_public(self.exchange_secret@)
        &&& self.exchange_public@.len() == 32
    }

    /// Answers the receiver's own public key with the first verify message.
    pub fn on_server_key(&self, manager: &mut RtspManager, reply: &RtspResponse) -> (out: Result<
        RtspReqBuilder,
        FerricastError,
    >)
        requires
            self.wf(),
        ensures
            match out {
                Ok(r) => reply_usable(*reply) && final(manager).last() == next_cseq(
                    old(manager).last(),
                ) && r@ == setup_request(
                    final(manager).last(),
                    v1_bytes(self.exchange_public@, self.signing_public@),
                ),
                Err(e) => !reply_usable(*reply) && reply_refused(*reply, e) && final(
                    manager).last() == old(manager).last(),
            },
    {
        match reply.is_ok() {
            Ok(()) => {},
            Err(e) => {
                return Err(e);
            },
        }
        match reply.content() {
            Ok(_) => {},
            Err(e) => {
                return Err(e);
            },
        }
        let mut v1: Vec<u8> = vec![1u8, 0, 0, 0];
        push_all(&mut v1, self.exchange_public.as_slice());
        push_all(&mut v1, self.signing_public.as_slice());
        assert(v1@ =~= v1_bytes(self.exchange_public@, self.signing_public@));
        Ok(post_setup(manager, v1))
    }

    /// Takes the receiver's exchange key and encrypted signature apart.
    pub fn on_server_verify(&self, reply: &RtspResponse) -> (out: Result<
        ServerVerify,
        FerricastError,
    >)
        requires
            self.wf(),
        ensures
            match out {
                Ok(v) => {
                    let v2 = reply.body()->0@;
                    &&& reply_usable(*reply)
                    &&& v2.len() == 96
                    &&& v.signature@ == opened_signature(self.exchange_secret@, v2)
                    &&& v.message@ == signed_message(self.exchange_public@, v2)
                },
                Err(e) => if reply_usable(*reply) {
                    reply.body()->0@.len() != 96 && e.is_protocol(
                        "Raw Pairing Failed, V2 package is not 96 bytes"@,
                    )
                } else {
                    reply_refused(*reply, e)
                },
            },
    {
        match reply.is_ok() {
            Ok(()) => {},
            Err(e) => {
                return Err(e);
            },
        }
        let v2: &Vec<u8> = match reply.content() {
            Ok(c) => c,
            Err(e) => {
                return Err(e);
            },
        };
        if v2.len() != 96 {
            return Err(
                FerricastError::Protocol(
                    "Raw Pairing Failed, V2 package is not 96 bytes".to_owned(),
                ),
            );
        }
        let server_public: Vec<u8> = copy_range(v2.as_slice(), 0, 32);
        let encrypted: Vec<u8> = copy_range(v2.as_slice(), 32, 96);
        proof {
            assert(v2@.subrange(0, 32) =~= v2@.take(32));
            assert(v2@.subrange(32, 96) =~= v2@.skip(32));
        }
        let shared: Vec<u8> = x25519_agree(
            self.exchange_secret.as_slice(),
            server_public.as_slice(),
        );
        let key: Vec<u8> = sha512_derive_key("Pair-Verify-AES-Key", shared.as_slice());
        let iv: Vec<u8> = sha512_derive_key("Pair-Verify-AES-IV", shared.as_slice());
        let signature: Vec<u8> = aes128_ctr(key.as_slice(), iv.as_slice(), encrypted.as_slice());
        let mut message: Vec<u8> = server_public;
        push_all(&mut message, self.exchange_public.as_slice());
        Ok(ServerVerify { signature, message })
    }
}

/// Starts the exchange: its state with a fresh exchange key, and the request
/// that carries the client's signing key.
pub fn raw_pair(manager: &mut RtspManager, signing_public: Vec<u8>) -> (out: (
    RawPair,
    RtspReqBuilder,
))
    requires
        signing_public@.len() == 32,
    ensures
        out.0.wf(),
        out.0.signing_public@ == signing_public@,
        final(manager).last() == next_cseq(old(manager).last()),
        out.1@ == setup_request(final(manager).last(), signing_public@),
{
    let exchange_secret: Vec<u8> = random_bytes(32);
    let exchange_public: Vec<u8> = x25519_public_key(exchange_secret.as_slice());
    let mut body: Vec<u8> = Vec::new();
    push_all(&mut body, signing_public.as_slice());
    assert(body@ =~= signing_public@);
    let request: RtspReqBuilder = post_setup(manager, body);
    (RawPair { signing_public, exchange_secret, exchange_public }, request)
}

/// The receiver finds in the first verify message a one, least significant byte
/// first, then the exchange key and then the signing key.
pub proof fn first_verify_message_is_read_back(exchange: Seq<u8>, signing: Seq<u8>)
    requires
        exchange.len() == 32,
        signing.len() == 32,
    ensures
        v1_bytes(exchange, signing).len() == 68,
        v1_bytes(exchange, signing).take(4) == seq![1u8, 0, 0, 0],
        v1_bytes(exchange, signing).subrange(4, 36) == exchange,
        v1_bytes(exchange, signing).subrange(36, 68) == signing,
{
    let v = v1_bytes(exchange, signing);
    assert(v.take(4) =~= seq![1u8, 0, 0, 0]);
    assert(v.subrange(4, 36) =~= exchange);
    assert(v.subrange(36, 68) =~= signing);
}

/// A derived key is the start of the hash of the label's bytes with the secret
/// behind them.
pub proof fn derived_keys_start_the_hash(label: Seq<char>, secret: Seq<u8>, i: int)
    requires
        sha512_digest(encode_utf8(label) + secret).len() == 64,
        0 <= i < 16,
    ensures
        derived_key(label, secret).len() == 16,
        derived_key(label, secret)[i] == sha512_digest(encode_utf8(label) + secret)[i],
{
}

/// A server that puts its exchange key first and its encrypted signature behind
/// it is understood: the signature is decrypted under the start of two hashes of
/// the shared secret, and covers the server's key with the client's behind it.
pub proof fn second_verify_message_is_taken_apart(
    secret: Seq<u8>,
    public: Seq<u8>,
    server: Seq<u8>,
    sealed: Seq<u8>,
)
    requires
        server.len() == 32,
    ensures
        ({
            let shared = x25519_shared(secret, server);
            opened_signature(secret, server + sealed) == aes128_ctr_stream(
                sha512_digest(encode_utf8("Pair-Verify-AES-Key"@) + shared).take(16),
                sha512_digest(encode_utf8("Pair-Verify-AES-IV"@) + shared).take(16),
                sealed,
            )
        }),
        signed_message(public, server + sealed) == server + public,
{
    let v2 = server + sealed;
    assert(v2.take(32) =~= server);
    assert(v2.skip(32) =~= sealed);
}

/// A verify request says that it is one of the newer way exactly where the
/// receiver does not pair the older way.
pub proof fn newer_pairing_is_announced(features: Features)
    ensures
        features.has(SUPPORT_LEGACY_PAIRING) ==> verify_header_texts(features).len() == 0,
        !features.has(SUPPORT_LEGACY_PAIRING) ==> verify_header_texts(features).len() == 1
            && verify_header_texts(features)[0].0 == "X-Apple-PD"@
            && verify_header_texts(features)[0].1 == "1"@,
{
}

} // verus!
