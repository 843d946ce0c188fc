//! Ephemeral X25519 key agreement with IV exchange, in the initiator and the
//! responder role. The handshake runs on the raw stream: the initiator sends
//! a codec-framed `EncryptionRequest`, the responder answers a codec-framed
//! `EncryptionResponse` carrying its public key and a fresh 24-byte IV, and
//! both sides derive the shared session context for the encrypted stream.
use vstd::prelude::*;

use crate::errors::IncomingErrors;
use crate::messages::{
    dec_encryption_request, dec_encryption_response, enc_encryption_request,
    enc_encryption_response, encode_encryption_request, encode_encryption_response,
    decode_encryption_request, decode_encryption_response, EncryptionRequest,
    EncryptionRequestV, EncryptionResponse, EncryptionResponseV,
};
use crate::wire::{frame_payload, lendelim_enc};
use rand_core::RngCore;

verus! {

/// The X25519 function: RFC 7748 scalar multiplication of the point `u` by
/// the clamped scalar `k`, a pure function of its two arguments.
pub uninterp spec fn x25519_of(k: Seq<u8>, u: Seq<u8>) -> Seq<u8>;

/// The X25519 base point (RFC 7748): nine followed by thirty-one zeros.
pub open spec fn basepoint_spec() -> Seq<u8> {
    seq![9u8] + Seq::new(31, |i: int| 0u8)
}

/// The public key belonging to a secret scalar.
pub open spec fn public_key_of(sk: Seq<u8>) -> Seq<u8> {
    x25519_of(sk, basepoint_spec())
}

/// What x25519_dalek documents of its `x25519` function: the result is a
/// 32-byte array, and the two sides of an exchange derive equal shared
/// secrets (its example ends in `assert_eq!(alice_shared, bob_shared)`).
pub open spec fn x25519_facts() -> bool {
    &&& forall|k: Seq<u8>, u: Seq<u8>| (#[trigger] x25519_of(k, u)).len() == 32
    &&& forall|a: Seq<u8>, b: Seq<u8>|
        #[trigger] x25519_of(a, x25519_of(b, basepoint_spec())) == x25519_of(
            b,
            x25519_of(a, basepoint_spec()),
        )
}

/// What a caller learns of the result of one X25519 multiplication beyond
/// its value: its documented 32-byte size, and the documented facts above.
pub open spec fn x25519_result_facts(r: Seq<u8>) -> bool {
    r.len() == 32 && x25519_facts()
}

/// Relies on x25519_dalek::x25519: the bare, byte-oriented X25519 function,
/// "exactly as specified in RFC7748", depending on nothing but `k` and `u`.
#[verifier::external_body]
fn x25519_mul(k: &[u8], u: &[u8]) -> (r: Vec<u8>)
    requires
        k@.len() == 32,
        u@.len() == 32,
    ensures
        r@ == x25519_of(k@, u@),
        x25519_result_facts(r@),
{
    let mut ka = [0u8; 32];
    ka.copy_from_slice(k);
    let mut ua = [0u8; 32];
    ua.copy_from_slice(u);
    x25519_dalek::x25519(ka, ua).to_vec()
}

/// Relies on rand_core::OsRng::fill_bytes: fills the buffer from the
/// operating system's secure random source. Nothing is promised of the
/// contents beyond the length.
#[verifier::external_body]
fn os_random_bytes(n: usize) -> (r: Vec<u8>)
    ensures
        r@.len() == n,
{
    let mut buf = vec![0u8; n];
    rand_core::OsRng.fill_bytes(&mut buf);
    buf
}

/// A fresh ephemeral secret scalar: 32 random bytes.
pub fn generate_secret_key() -> (r: Vec<u8>)
    ensures
        r@.len() == 32,
{
    os_random_bytes(32)
}

/// A fresh 24-byte IV for the session.
pub fn generate_iv() -> (r: Vec<u8>)
    ensures
        r@.len() == 24,
{
    os_random_bytes(24)
}

/// The X25519 base point as bytes.
pub fn basepoint() -> (r: Vec<u8>)
    ensures
        r@ == basepoint_spec(),
        r@.len() == 32,
{
    let mut v: Vec<u8> = Vec::new();
    v.push(9);
    let mut j: usize = 0;
    while j < 31
        invariant
            j <= 31,
            v@ == seq![9u8] + Seq::new(j as nat, |i: int| 0u8),
        decreases 31 - j,
    {
        v.push(0);
        assert(v@ =~= seq![9u8] + Seq::new((j + 1) as nat, |i: int| 0u8));
        j = j + 1;
    }
    assert(v@ =~= basepoint_spec());
    v
}

/// The public key of a 32-byte secret scalar.
pub fn derive_public_key(secret: &Vec<u8>) -> (r: Vec<u8>)
    requires
        secret@.len() == 32,
    ensures
        r@ == public_key_of(secret@),
        r@.len() == 32,
        x25519_facts(),
{
    let base = basepoint();
    x25519_mul(secret.as_slice(), base.as_slice())
}

/// The AEAD session context both peers hold after a handshake: the 32-byte
/// shared secret and the 24-byte session IV.
#[derive(Debug)]
pub struct SessionContext {
    pub key: Vec<u8>,
    pub iv: Vec<u8>,
}

impl SessionContext {
    /// Well-formed context: key and IV have their fixed sizes.
    pub open spec fn wf(&self) -> bool {
        self.key@.len() == 32 && self.iv@.len() == 24
    }
}

/// What the initiator derives from the responder's `EncryptionResponse`
/// payload: the session key and IV, or the exact error.
pub open spec fn sender_finish_spec(sk: Seq<u8>, payload: Seq<u8>) -> Result<
    (Seq<u8>, Seq<u8>),
    IncomingErrors,
> {
    match dec_encryption_response(payload) {
        None => Err(IncomingErrors::EncryptionError),
        Some(m) => if m.public_key.len() != 32 {
            Err(IncomingErrors::InvalidForeignPublicKey)
        } else if m.iv.len() != 24 {
            Err(IncomingErrors::InvalidNonce)
        } else {
            Ok((x25519_of(sk, m.public_key), m.iv))
        },
    }
}

/// What the responder derives from the initiator's `EncryptionRequest`
/// payload, given its own fresh IV.
pub open spec fn responder_finish_spec(sk: Seq<u8>, iv: Seq<u8>, payload: Seq<u8>) -> Result<
    (Seq<u8>, Seq<u8>),
    IncomingErrors,
> {
    match dec_encryption_request(payload) {
        None => Err(IncomingErrors::EncryptionError),
        Some(m) => if m.public_key.len() != 32 {
            Err(IncomingErrors::InvalidForeignPublicKey)
        } else {
            Ok((x25519_of(sk, m.public_key), iv))
        },
    }
}

/// Initiator, first step: the codec-framed `EncryptionRequest` carrying the
/// public key of `secret`.
pub fn sender_handshake_request(secret: &Vec<u8>) -> (r: Vec<u8>)
    requires
        secret@.len() == 32,
    ensures
        r@ == lendelim_enc(
            enc_encryption_request(EncryptionRequestV { public_key: public_key_of(secret@) }),
        ),
{
    let public_key = derive_public_key(secret);
    let msg = EncryptionRequest { public_key };
    let mut payload: Vec<u8> = Vec::new();
    encode_encryption_request(&msg, &mut payload);
    frame_payload(&payload)
}

/// Initiator, second step: derive the session context from the responder's
/// `EncryptionResponse` frame payload.
pub fn sender_handshake_finish(secret: &Vec<u8>, response_payload: &[u8]) -> (r: Result<
    SessionContext,
    IncomingErrors,
>)
    requires
        secret@.len() == 32,
    ensures
        match r {
            Ok(ctx) => {
                &&& ctx.wf()
                &&& sender_finish_spec(secret@, response_payload@) == Ok::<
                    _,
                    IncomingErrors,
                >((ctx.key@, ctx.iv@))
                &&& x25519_facts()
            },
            Err(e) => sender_finish_spec(secret@, response_payload@) == Err::<
                (Seq<u8>, Seq<u8>),
                _,
            >(e),
        },
{
    match decode_encryption_response(response_payload) {
        None => Err(IncomingErrors::EncryptionError),
        Some(m) => {
            if m.public_key.len() != 32 {
                Err(IncomingErrors::InvalidForeignPublicKey)
            } else if m.iv.len() != 24 {
                Err(IncomingErrors::InvalidNonce)
            } else {
                let key = x25519_mul(secret.as_slice(), m.public_key.as_slice());
                Ok(SessionContext { key, iv: m.iv })
            }
        },
    }
}

/// Responder: parse the initiator's `EncryptionRequest` frame payload, and
/// produce the codec-framed `EncryptionResponse` together with the derived
/// session context.
pub fn responder_handshake(secret: &Vec<u8>, iv: Vec<u8>, request_payload: &[u8]) -> (r: Result<
    (Vec<u8>, SessionContext),
    IncomingErrors,
>)
    requires
        secret@.len() == 32,
        iv@.len() == 24,
    ensures
        match r {
            Ok(p) => {
                &&& p.1.wf()
                &&& responder_finish_spec(secret@, iv@, request_payload@) == Ok::<
                    _,
                    IncomingErrors,
                >((p.1.key@, p.1.iv@))
                &&& p.0@ == lendelim_enc(
                    enc_encryption_response(
                        EncryptionResponseV { public_key: public_key_of(secret@), iv: iv@ },
                    ),
                )
                &&& x25519_facts()
            },
            Err(e) => responder_finish_spec(secret@, iv@, request_payload@) == Err::<
                (Seq<u8>, Seq<u8>),
                _,
            >(e),
        },
{
    match decode_encryption_request(request_payload) {
        None => Err(IncomingErrors::EncryptionError),
        Some(m) => {
            if m.public_key.len() != 32 {
                Err(IncomingErrors::InvalidForeignPublicKey)
            } else {
                let public_key = derive_public_key(secret);
                let response = EncryptionResponse { public_key, iv };
                let mut payload: Vec<u8> = Vec::new();
                encode_encryption_response(&response, &mut payload);
                let frame = frame_payload(&payload);
                let key = x25519_mul(secret.as_slice(), m.public_key.as_slice());
                let iv2 = response.iv;
                Ok((frame, SessionContext { key, iv: iv2 }))
            }
        },
    }
}

/// For every successful handshake the two peers derive byte-identical
/// session contexts: when the two frames are delivered intact, the responder
/// accepts the initiator's request, the initiator accepts the responder's
/// response, both agree on the responder's IV, and — by the documented
/// agreement property of X25519, `x25519_facts()`, which every call of the
/// key-agreement wrapper establishes — on the session key.
pub proof fn lemma_handshake_agreement(sa: Seq<u8>, sb: Seq<u8>, iv: Seq<u8>)
    requires
        sa.len() == 32,
        sb.len() == 32,
        iv.len() == 24,
    ensures
        x25519_facts() ==> {
            &&& responder_finish_spec(
                sb,
                iv,
                enc_encryption_request(EncryptionRequestV { public_key: public_key_of(sa) }),
            ) == Ok::<_, IncomingErrors>((x25519_of(sb, public_key_of(sa)), iv))
            &&& sender_finish_spec(
                sa,
                enc_encryption_response(
                    EncryptionResponseV { public_key: public_key_of(sb), iv },
                ),
            ) == Ok::<_, IncomingErrors>((x25519_of(sa, public_key_of(sb)), iv))
            &&& x25519_of(sa, public_key_of(sb)) == x25519_of(sb, public_key_of(sa))
        },
{
    if x25519_facts() {
        crate::messages::lemma_encryption_request_roundtrip(
            EncryptionRequestV { public_key: public_key_of(sa) },
        );
        crate::messages::lemma_encryption_response_roundtrip(
            EncryptionResponseV { public_key: public_key_of(sb), iv },
        );
        assert(x25519_of(sa, x25519_of(sb, basepoint_spec())) == x25519_of(
            sb,
            x25519_of(sa, basepoint_spec()),
        ));
    }
}

} // verus!
