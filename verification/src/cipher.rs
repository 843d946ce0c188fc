//! The encrypted stream: a symmetric AEAD wrap of an underlying byte stream.
//!
//! After the handshake each direction carries a sequence of bounded chunks.
//! Every chunk is sealed with XChaCha20-Poly1305 (the chacha20poly1305
//! crate; the extended 24-byte nonce avoids nonce reuse over long sessions)
//! under the session key and a per-chunk nonce derived from the session IV
//! and a monotonically increasing chunk counter, then codec-framed for the
//! wire. A tag mismatch on read fails the stream permanently.
use vstd::prelude::*;

use chacha20poly1305::aead::Aead;
use chacha20poly1305::{KeyInit, XChaCha20Poly1305, XNonce};

use crate::errors::IncomingErrors;
use crate::wire::{lendelim_enc};

verus! {

/// Payload bytes of one chunk: 1 KiB.
pub const CHUNK_SIZE: usize = 1024;

/// Sealing one chunk: ciphertext plus tag, a pure function of key, nonce and
/// plaintext.
pub uninterp spec fn seal_of(k: Seq<u8>, n: Seq<u8>, m: Seq<u8>) -> Seq<u8>;

/// Opening one chunk: the plaintext when key, nonce and tag agree, `None`
/// otherwise; a pure function of key, nonce and ciphertext.
pub uninterp spec fn open_of(k: Seq<u8>, n: Seq<u8>, c: Seq<u8>) -> Option<Seq<u8>>;

/// What the AEAD documentation promises: opening a sealed chunk under the
/// sealing key and nonce returns the plaintext. Bounded by the same plaintext
/// limit the sealing wrapper requires, far below the cipher's own refusal
/// point.
pub open spec fn aead_facts() -> bool {
    forall|k: Seq<u8>, n: Seq<u8>, m: Seq<u8>|
        m.len() <= 0x10000000 ==> #[trigger] open_of(k, n, seal_of(k, n, m)) == Some(m)
}

/// What a caller learns of one sealed chunk beyond its value: the documented
/// 16-byte tag appended to the ciphertext, and the documented facts above.
pub open spec fn seal_result_facts(m: Seq<u8>, r: Seq<u8>) -> bool {
    r.len() == m.len() + 16 && aead_facts()
}

/// Relies on chacha20poly1305::XChaCha20Poly1305 (new, encrypt): seals the
/// chunk under key and 24-byte nonce; the tag is appended postfix. Encryption
/// only fails for plaintexts beyond the cipher's limit, far above the bound
/// required here.
#[verifier::external_body]
fn aead_seal(key: &[u8], nonce: &[u8], msg: &[u8]) -> (r: Vec<u8>)
    requires
        key@.len() == 32,
        nonce@.len() == 24,
        msg@.len() <= 0x10000000,
    ensures
        r@ == seal_of(key@, nonce@, msg@),
        seal_result_facts(msg@, r@),
{
    let cipher = XChaCha20Poly1305::new(chacha20poly1305::Key::from_slice(key));
    cipher.encrypt(XNonce::from_slice(nonce), msg).expect("chunk within cipher limits")
}

/// Relies on chacha20poly1305::XChaCha20Poly1305 (new, decrypt): opens one
/// sealed chunk; any mismatch of key, nonce, ciphertext or tag gives an
/// error.
#[verifier::external_body]
fn aead_open(key: &[u8], nonce: &[u8], ciphertext: &[u8]) -> (r: Option<Vec<u8>>)
    requires
        key@.len() == 32,
        nonce@.len() == 24,
    ensures
        match r {
            Some(p) => open_of(key@, nonce@, ciphertext@) == Some(p@),
            None => open_of(key@, nonce@, ciphertext@) is None,
        },
{
    let cipher = XChaCha20Poly1305::new(chacha20poly1305::Key::from_slice(key));
    match cipher.decrypt(XNonce::from_slice(nonce), ciphertext) {
        Ok(p) => Some(p),
        Err(_) => None,
    }
}

/// Little-endian byte decomposition of `c`, `n` bytes long.
pub open spec fn le_bytes(c: nat, n: nat) -> Seq<u8>
    decreases n,
{
    if n == 0 {
        Seq::empty()
    } else {
        seq![(c % 256) as u8] + le_bytes(c / 256, (n - 1) as nat)
    }
}

/// The nonce of chunk number `c`: the first 16 bytes of the session IV
/// followed by the counter, little endian.
pub open spec fn nonce_for(iv: Seq<u8>, c: u64) -> Seq<u8> {
    iv.take(16) + le_bytes(c as nat, 8)
}

pub proof fn lemma_le_bytes_len(c: nat, n: nat)
    ensures
        le_bytes(c, n).len() == n,
    decreases n,
{
    if n > 0 {
        lemma_le_bytes_len(c / 256, (n - 1) as nat);
    }
}

/// Compute the nonce of chunk `counter`.
pub fn derive_nonce(iv: &Vec<u8>, counter: u64) -> (r: Vec<u8>)
    requires
        iv@.len() == 24,
    ensures
        r@ == nonce_for(iv@, counter),
        r@.len() == 24,
{
    let mut out: Vec<u8> = Vec::new();
    let mut i: usize = 0;
    while i < 16
        invariant
            i <= 16,
            iv@.len() == 24,
            out@ == iv@.take(i as int),
        decreases 16 - i,
    {
        out.push(iv[i]);
        assert(out@ =~= iv@.take(i as int + 1));
        i = i + 1;
    }
    let mut c = counter;
    let mut j: usize = 0;
    while j < 8
        invariant
            j <= 8,
            iv@.len() == 24,
            out@ + le_bytes(c as nat, (8 - j) as nat) == iv@.take(16) + le_bytes(
                counter as nat,
                8,
            ),
        decreases 8 - j,
    {
        out.push((c % 256) as u8);
        assert(out@ + le_bytes((c / 256) as nat, (8 - j - 1) as nat) =~= iv@.take(16) + le_bytes(
            counter as nat,
            8,
        ));
        c = c / 256;
        j = j + 1;
    }
    assert(le_bytes(c as nat, 0) =~= Seq::<u8>::empty());
    assert(out@ =~= out@ + le_bytes(c as nat, 0));
    assert(out@ =~= nonce_for(iv@, counter));
    proof {
        lemma_le_bytes_len(counter as nat, 8);
    }
    out
}

} // verus!

verus! {

/// Sealing half of the encrypted stream for one direction: session key and
/// IV, and the number of the next chunk.
pub struct ChunkSealer {
    pub key: Vec<u8>,
    pub iv: Vec<u8>,
    pub counter: u64,
}

impl ChunkSealer {
    pub open spec fn wf(&self) -> bool {
        self.key@.len() == 32 && self.iv@.len() == 24
    }

    pub fn new(key: Vec<u8>, iv: Vec<u8>) -> (r: Self)
        requires
            key@.len() == 32,
            iv@.len() == 24,
        ensures
            r.key@ == key@,
            r.iv@ == iv@,
            r.counter == 0,
            r.wf(),
    {
        ChunkSealer { key, iv, counter: 0 }
    }

    /// Seal the next chunk under the next counter and frame it for the wire.
    pub fn seal_next(&mut self, chunk: &[u8]) -> (r: Vec<u8>)
        requires
            old(self).wf(),
            old(self).counter < u64::MAX,
            chunk@.len() <= 0x10000000,
        ensures
            final(self).wf(),
            final(self).key@ == old(self).key@,
            final(self).iv@ == old(self).iv@,
            final(self).counter == old(self).counter + 1,
            r@ == lendelim_enc(
                seal_of(old(self).key@, nonce_for(old(self).iv@, old(self).counter), chunk@),
            ),
            aead_facts(),
    {
        let nonce = derive_nonce(&self.iv, self.counter);
        let sealed = aead_seal(self.key.as_slice(), nonce.as_slice(), chunk);
        self.counter = self.counter + 1;
        crate::wire::frame_payload(&sealed)
    }
}

/// Opening half of the encrypted stream for one direction. A tag mismatch
/// fails the stream permanently.
pub struct ChunkOpener {
    pub key: Vec<u8>,
    pub iv: Vec<u8>,
    pub counter: u64,
    pub failed: bool,
}

impl ChunkOpener {
    pub open spec fn wf(&self) -> bool {
        self.key@.len() == 32 && self.iv@.len() == 24
    }

    pub fn new(key: Vec<u8>, iv: Vec<u8>) -> (r: Self)
        requires
            key@.len() == 32,
            iv@.len() == 24,
        ensures
            r.key@ == key@,
            r.iv@ == iv@,
            r.counter == 0,
            !r.failed,
            r.wf(),
    {
        ChunkOpener { key, iv, counter: 0, failed: false }
    }

    /// Open the next sealed chunk (its wire frame already parsed away).
    /// After any failure every further call fails.
    pub fn open_next(&mut self, ciphertext: &[u8]) -> (r: Result<Vec<u8>, IncomingErrors>)
        requires
            old(self).wf(),
            old(self).counter < u64::MAX,
        ensures
            final(self).wf(),
            final(self).key@ == old(self).key@,
            final(self).iv@ == old(self).iv@,
            match r {
                Ok(p) => {
                    &&& !old(self).failed
                    &&& !final(self).failed
                    &&& open_of(
                        old(self).key@,
                        nonce_for(old(self).iv@, old(self).counter),
                        ciphertext@,
                    ) == Some(p@)
                    &&& final(self).counter == old(self).counter + 1
                },
                Err(e) => {
                    &&& final(self).failed
                    &&& e is EncryptionError
                    &&& old(self).failed || open_of(
                        old(self).key@,
                        nonce_for(old(self).iv@, old(self).counter),
                        ciphertext@,
                    ) is None
                    &&& final(self).counter == old(self).counter
                },
            },
    {
        if self.failed {
            return Err(IncomingErrors::EncryptionError);
        }
        let nonce = derive_nonce(&self.iv, self.counter);
        match aead_open(self.key.as_slice(), nonce.as_slice(), ciphertext) {
            Some(p) => {
                self.counter = self.counter + 1;
                Ok(p)
            },
            None => {
                self.failed = true;
                Err(IncomingErrors::EncryptionError)
            },
        }
    }
}

/// Split a payload into chunks of at most `CHUNK_SIZE` bytes, in order.
pub open spec fn chunk_seq(data: Seq<u8>) -> Seq<Seq<u8>>
    decreases data.len(),
{
    if data.len() == 0 {
        Seq::empty()
    } else if data.len() <= CHUNK_SIZE {
        seq![data]
    } else {
        seq![data.take(CHUNK_SIZE as int)] + chunk_seq(data.skip(CHUNK_SIZE as int))
    }
}

/// Concatenating the chunks of a payload gives the payload back: no byte is
/// lost or added by chunking.
pub proof fn lemma_chunk_seq_flatten(data: Seq<u8>)
    ensures
        chunk_seq(data).flatten() == data,
    decreases data.len(),
{
    let cs = chunk_seq(data);
    if data.len() == 0 {
        assert(cs.flatten() =~= data);
    } else if data.len() <= CHUNK_SIZE {
        assert(cs.drop_first() =~= Seq::<Seq<u8>>::empty());
        assert(cs.drop_first().flatten() =~= Seq::<u8>::empty());
        assert(cs.flatten() =~= data);
    } else {
        lemma_chunk_seq_flatten(data.skip(CHUNK_SIZE as int));
        assert(cs.drop_first() =~= chunk_seq(data.skip(CHUNK_SIZE as int)));
        assert(cs.flatten() =~= data.take(CHUNK_SIZE as int) + data.skip(CHUNK_SIZE as int));
        assert(data.take(CHUNK_SIZE as int) + data.skip(CHUNK_SIZE as int) =~= data);
    }
}

/// A payload of `n` bytes makes at most `n` chunks, and at least one when it
/// is not empty.
pub proof fn lemma_chunk_seq_len(data: Seq<u8>)
    ensures
        chunk_seq(data).len() <= data.len(),
        data.len() > 0 ==> 1 <= chunk_seq(data).len(),
    decreases data.len(),
{
    if data.len() > CHUNK_SIZE {
        lemma_chunk_seq_len(data.skip(CHUNK_SIZE as int));
    }
}

/// Seal a whole payload: each chunk under the next counter, framed for the
/// wire, in order.
pub fn seal_payload(sealer: &mut ChunkSealer, data: &[u8]) -> (r: Vec<Vec<u8>>)
    requires
        old(sealer).wf(),
        old(sealer).counter + chunk_seq(data@).len() <= u64::MAX,
    ensures
        final(sealer).wf(),
        final(sealer).key@ == old(sealer).key@,
        final(sealer).iv@ == old(sealer).iv@,
        final(sealer).counter == old(sealer).counter + chunk_seq(data@).len(),
        r@.len() == chunk_seq(data@).len(),
        forall|i: int|
            0 <= i < r@.len() ==> r@[i]@ == lendelim_enc(
                seal_of(
                    old(sealer).key@,
                    nonce_for(old(sealer).iv@, (old(sealer).counter + i) as u64),
                    chunk_seq(data@)[i],
                ),
            ),
        data@.len() > 0 ==> aead_facts(),
{
    let ghost c0 = sealer.counter;
    let ghost key = sealer.key@;
    let ghost iv = sealer.iv@;
    let mut frames: Vec<Vec<u8>> = Vec::new();
    let mut offset: usize = 0;
    proof {
        assert(data@.skip(0) =~= data@);
        assert(chunk_seq(data@).skip(0) =~= chunk_seq(data@));
    }
    while offset < data.len()
        invariant
            sealer.wf(),
            sealer.key@ == key,
            sealer.iv@ == iv,
            offset <= data.len(),
            sealer.counter == c0 + frames@.len(),
            c0 + chunk_seq(data@).len() <= u64::MAX,
            chunk_seq(data@).len() == frames@.len() + chunk_seq(data@.skip(offset as int)).len(),
            chunk_seq(data@).skip(frames@.len() as int) == chunk_seq(data@.skip(offset as int)),
            forall|i: int|
                0 <= i < frames@.len() ==> frames@[i]@ == lendelim_enc(
                    seal_of(key, nonce_for(iv, (c0 + i) as u64), chunk_seq(data@)[i]),
                ),
            frames@.len() > 0 ==> aead_facts(),
        decreases data.len() - offset,
    {
        let ghost k = frames@.len() as int;
        let ghost rest = data@.skip(offset as int);
        proof {
            assert(rest.len() > 0);
            assert(chunk_seq(rest).len() >= 1) by {
                lemma_chunk_seq_len(rest);
            }
            assert(chunk_seq(data@)[k] == chunk_seq(rest)[0]);
        }
        let end = if data.len() - offset <= CHUNK_SIZE {
            data.len()
        } else {
            offset + CHUNK_SIZE
        };
        let chunk = vstd::slice::slice_subrange(data, offset, end);
        proof {
            if rest.len() <= CHUNK_SIZE {
                assert(chunk@ =~= rest);
                assert(chunk_seq(rest)[0] == rest);
            } else {
                assert(chunk@ =~= rest.take(CHUNK_SIZE as int));
                assert(chunk_seq(rest)[0] == rest.take(CHUNK_SIZE as int));
            }
        }
        let frame = sealer.seal_next(chunk);
        frames.push(frame);
        proof {
            if rest.len() <= CHUNK_SIZE {
                assert(chunk_seq(rest).skip(1) =~= Seq::<Seq<u8>>::empty());
                assert(data@.skip(data@.len() as int) =~= Seq::<u8>::empty());
                assert(chunk_seq(data@).skip(k + 1) =~= chunk_seq(rest).skip(1));
            } else {
                assert(rest.skip(CHUNK_SIZE as int) =~= data@.skip(
                    offset as int + CHUNK_SIZE as int,
                ));
                assert(chunk_seq(rest).skip(1) =~= chunk_seq(rest.skip(CHUNK_SIZE as int)));
                assert(chunk_seq(data@).skip(k + 1) =~= chunk_seq(rest).skip(1));
            }
        }
        offset = end;
    }
    proof {
        assert(data@.skip(offset as int) =~= Seq::<u8>::empty());
    }
    frames
}

/// Open a sequence of sealed chunks in order, starting at counter `c0`:
/// all the plaintexts, or `None` as soon as one chunk does not open.
pub open spec fn open_all(key: Seq<u8>, iv: Seq<u8>, c0: u64, cts: Seq<Seq<u8>>) -> Option<
    Seq<Seq<u8>>,
>
    decreases cts.len(),
{
    if cts.len() == 0 {
        Some(Seq::empty())
    } else if c0 == u64::MAX {
        None
    } else {
        match open_of(key, nonce_for(iv, c0), cts[0]) {
            None => None,
            Some(p) => match open_all(key, iv, (c0 + 1) as u64, cts.skip(1)) {
                None => None,
                Some(rest) => Some(seq![p] + rest),
            },
        }
    }
}

/// The chunks of a payload, sealed under counters `c0`, `c0 + 1`, ...
pub open spec fn sealed_chunks(key: Seq<u8>, iv: Seq<u8>, c0: u64, chunks: Seq<Seq<u8>>) -> Seq<
    Seq<u8>,
> {
    Seq::new(chunks.len(), |i: int| seal_of(key, nonce_for(iv, (c0 + i) as u64), chunks[i]))
}

/// Every chunk a payload splits into is within the sealing bound.
pub proof fn lemma_chunk_seq_bounds(data: Seq<u8>)
    ensures
        forall|i: int|
            0 <= i < chunk_seq(data).len() ==> #[trigger] chunk_seq(data)[i].len() <= CHUNK_SIZE,
    decreases data.len(),
{
    if data.len() > CHUNK_SIZE {
        lemma_chunk_seq_bounds(data.skip(CHUNK_SIZE as int));
        assert forall|i: int| 0 <= i < chunk_seq(data).len() implies #[trigger] chunk_seq(
            data,
        )[i].len() <= CHUNK_SIZE by {
            if i > 0 {
                assert(chunk_seq(data)[i] == chunk_seq(data.skip(CHUNK_SIZE as int))[i - 1]);
            }
        }
    }
}

/// Chunks sealed in order open in order to exactly the same chunks.
pub proof fn lemma_sealed_chunks_open(key: Seq<u8>, iv: Seq<u8>, c0: u64, chunks: Seq<Seq<u8>>)
    requires
        c0 + chunks.len() <= u64::MAX,
        forall|i: int| 0 <= i < chunks.len() ==> #[trigger] chunks[i].len() <= 0x10000000,
    ensures
        aead_facts() ==> open_all(key, iv, c0, sealed_chunks(key, iv, c0, chunks)) == Some(chunks),
    decreases chunks.len(),
{
    if aead_facts() && chunks.len() > 0 {
        let s = sealed_chunks(key, iv, c0, chunks);
        assert(s[0] == seal_of(key, nonce_for(iv, c0), chunks[0]));
        assert(s.skip(1) =~= sealed_chunks(key, iv, (c0 + 1) as u64, chunks.skip(1)));
        assert(chunks[0].len() <= 0x10000000);
        assert forall|i: int| 0 <= i < chunks.skip(1).len() implies #[trigger] chunks.skip(
            1,
        )[i].len() <= 0x10000000 by {
            assert(chunks.skip(1)[i] == chunks[i + 1]);
        }
        lemma_sealed_chunks_open(key, iv, (c0 + 1) as u64, chunks.skip(1));
        assert(seq![chunks[0]] + chunks.skip(1) =~= chunks);
    }
}

/// Round trip of the encrypted stream: sealing a byte vector `V` chunk by
/// chunk and opening what was sealed, in order and under the same session
/// context and counters, yields exactly `V`. The hypothesis `aead_facts()`
/// is established by every call of the sealing wrapper.
pub proof fn lemma_payload_roundtrip(key: Seq<u8>, iv: Seq<u8>, c0: u64, data: Seq<u8>)
    requires
        c0 + chunk_seq(data).len() <= u64::MAX,
    ensures
        aead_facts() ==> open_all(key, iv, c0, sealed_chunks(key, iv, c0, chunk_seq(data)))
            == Some(chunk_seq(data)),
        chunk_seq(data).flatten() == data,
{
    lemma_chunk_seq_bounds(data);
    lemma_sealed_chunks_open(key, iv, c0, chunk_seq(data));
    lemma_chunk_seq_flatten(data);
}

} // verus!
