use intershare_core::cipher::{ChunkOpener, ChunkSealer, seal_payload};
use intershare_core::connect::clone_bytes;
use intershare_core::errors::IncomingErrors;
use intershare_core::handshake::{
    derive_public_key, generate_iv, generate_secret_key, responder_handshake,
    sender_handshake_finish, sender_handshake_request,
};
use intershare_core::wire::deframe_payload;

#[test]
fn handshake_derives_identical_contexts() {
    let sa = generate_secret_key();
    let sb = generate_secret_key();
    let iv = generate_iv();

    let request_frame = sender_handshake_request(&sa);
    let (request_payload, _) = deframe_payload(request_frame.as_slice(), 0).unwrap();

    let (response_frame, ctx_b) =
        responder_handshake(&sb, clone_bytes(&iv), request_payload.as_slice()).unwrap();
    let (response_payload, _) = deframe_payload(response_frame.as_slice(), 0).unwrap();

    let ctx_a = sender_handshake_finish(&sa, response_payload.as_slice()).unwrap();

    assert_eq!(ctx_a.key, ctx_b.key);
    assert_eq!(ctx_a.iv, ctx_b.iv);
    assert_eq!(ctx_a.iv, iv);
    assert_eq!(ctx_a.key.len(), 32);
}

#[test]
fn public_key_differs_from_secret_and_is_deterministic() {
    let secret = generate_secret_key();
    let pk1 = derive_public_key(&secret);
    let pk2 = derive_public_key(&secret);
    assert_eq!(pk1, pk2);
    assert_ne!(pk1, secret);
    assert_eq!(pk1.len(), 32);
}

#[test]
fn handshake_rejects_short_public_key() {
    let sa = generate_secret_key();
    // A response whose public key has the wrong length.
    let bad = intershare_core::messages::EncryptionResponse {
        public_key: vec![1u8; 16],
        iv: vec![2u8; 24],
    };
    let mut payload = Vec::new();
    intershare_core::messages::encode_encryption_response(&bad, &mut payload);
    let err = sender_handshake_finish(&sa, payload.as_slice()).unwrap_err();
    assert!(matches!(err, IncomingErrors::InvalidForeignPublicKey));
}

#[test]
fn handshake_rejects_short_iv() {
    let sa = generate_secret_key();
    let bad = intershare_core::messages::EncryptionResponse {
        public_key: vec![1u8; 32],
        iv: vec![2u8; 8],
    };
    let mut payload = Vec::new();
    intershare_core::messages::encode_encryption_response(&bad, &mut payload);
    let err = sender_handshake_finish(&sa, payload.as_slice()).unwrap_err();
    assert!(matches!(err, IncomingErrors::InvalidNonce));
}

#[test]
fn handshake_rejects_garbage_frames() {
    let sa = generate_secret_key();
    let err = sender_handshake_finish(&sa, &[0xFF, 0x01, 0x02]).unwrap_err();
    assert!(matches!(err, IncomingErrors::EncryptionError));

    let sb = generate_secret_key();
    let err2 = responder_handshake(&sb, generate_iv(), &[0xFF, 0x01]).unwrap_err();
    assert!(matches!(err2, IncomingErrors::EncryptionError));
}

#[test]
fn sealed_chunk_roundtrips_and_hides_plaintext() {
    let key = vec![5u8; 32];
    let iv = vec![6u8; 24];
    let mut sealer = ChunkSealer::new(clone_bytes(&key), clone_bytes(&iv));
    let mut opener = ChunkOpener::new(key, iv);

    let message = b"hello nearby world".to_vec();
    let frame = sealer.seal_next(message.as_slice());
    let (ciphertext, _) = deframe_payload(frame.as_slice(), 0).unwrap();
    assert_eq!(ciphertext.len(), message.len() + 16);
    assert_ne!(&ciphertext[..message.len()], message.as_slice());

    let opened = opener.open_next(ciphertext.as_slice()).unwrap();
    assert_eq!(opened, message);
}

#[test]
fn tampered_chunk_fails_the_stream_permanently() {
    let key = vec![5u8; 32];
    let iv = vec![6u8; 24];
    let mut sealer = ChunkSealer::new(clone_bytes(&key), clone_bytes(&iv));
    let mut opener = ChunkOpener::new(key, iv);

    let first = sealer.seal_next(b"first chunk");
    let second = sealer.seal_next(b"second chunk");

    let (mut ct1, _) = deframe_payload(first.as_slice(), 0).unwrap();
    // A man in the middle flips one byte of the first bulk chunk.
    ct1[0] ^= 0x01;
    let err = opener.open_next(ct1.as_slice()).unwrap_err();
    assert!(matches!(err, IncomingErrors::EncryptionError));

    // The stream stays failed even for an untampered later chunk.
    let (ct2, _) = deframe_payload(second.as_slice(), 0).unwrap();
    assert!(opener.open_next(ct2.as_slice()).is_err());
}

#[test]
fn payload_roundtrips_across_many_chunks() {
    let key = vec![9u8; 32];
    let iv = vec![1u8; 24];
    let mut sealer = ChunkSealer::new(clone_bytes(&key), clone_bytes(&iv));
    let mut opener = ChunkOpener::new(key, iv);

    // More than two chunks of data.
    let mut data = Vec::new();
    for i in 0..3000usize {
        data.push((i % 251) as u8);
    }
    let frames = seal_payload(&mut sealer, data.as_slice());
    assert_eq!(frames.len(), 3);

    let mut received = Vec::new();
    let mut total_plain = 0usize;
    for frame in &frames {
        let (ct, _) = deframe_payload(frame.as_slice(), 0).unwrap();
        let mut part = opener.open_next(ct.as_slice()).unwrap();
        total_plain += part.len();
        received.append(&mut part);
    }
    // Exactly the bytes that went in, no more and no fewer.
    assert_eq!(total_plain, data.len());
    assert_eq!(received, data);
}

#[test]
fn different_nonce_counters_give_different_ciphertexts() {
    let key = vec![5u8; 32];
    let iv = vec![6u8; 24];
    let mut sealer = ChunkSealer::new(clone_bytes(&key), clone_bytes(&iv));
    let a = sealer.seal_next(b"same bytes");
    let b = sealer.seal_next(b"same bytes");
    assert_ne!(a, b);
}
