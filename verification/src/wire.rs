//! Length-delimited wire codec: base-128 varints and the canonical binary
//! encoding of the protocol messages. Every frame on a connection is a varint
//! byte count followed by that many bytes of message payload.
use vstd::prelude::*;

verus! {

/// Canonical base-128 varint encoding, least-significant group first.
pub open spec fn varint_enc(v: nat) -> Seq<u8>
    decreases v,
{
    if v < 128 {
        seq![v as u8]
    } else {
        seq![(128 + (v % 128)) as u8] + varint_enc(v / 128)
    }
}

/// Parse a varint from the front of `s`: the value and the bytes consumed.
pub open spec fn varint_dec(s: Seq<u8>) -> Option<(nat, nat)>
    decreases s.len(),
{
    if s.len() == 0 {
        None
    } else if s[0] < 128 {
        Some((s[0] as nat, 1nat))
    } else {
        match varint_dec(s.skip(1)) {
            Some(p) => Some(((s[0] - 128 + 128 * p.0) as nat, (p.1 + 1) as nat)),
            None => None,
        }
    }
}

/// Parsing a varint reads only the encoding itself, whatever follows it.
pub proof fn lemma_varint_dec_prefix(v: nat, rest: Seq<u8>)
    ensures
        varint_dec(varint_enc(v) + rest) == Some((v, varint_enc(v).len())),
    decreases v,
{
    let s = varint_enc(v) + rest;
    if v < 128 {
        assert(s[0] == v as u8);
    } else {
        assert(s[0] == (128 + (v % 128)) as u8);
        assert(s[0] >= 128);
        assert(s.skip(1) =~= varint_enc(v / 128) + rest);
        lemma_varint_dec_prefix(v / 128, rest);
        vstd::arithmetic::div_mod::lemma_fundamental_div_mod(v as int, 128);
        assert(s[0] - 128 + 128 * (v / 128) == v);
    }
}

/// Append the varint encoding of `v` to `out`.
pub fn encode_varint(v: u64, out: &mut Vec<u8>)
    ensures
        final(out)@ == old(out)@ + varint_enc(v as nat),
    decreases v,
{
    if v < 128 {
        out.push(v as u8);
        assert(out@ =~= old(out)@ + varint_enc(v as nat));
    } else {
        let ghost mid = out@;
        out.push((128 + v % 128) as u8);
        encode_varint(v / 128, out);
        assert(v as nat / 128 == (v / 128) as nat);
        assert(out@ =~= old(out)@ + varint_enc(v as nat));
    }
}

/// Parse a varint at index `i`; `None` when the bytes are exhausted mid-value
/// or the value does not fit in a `u64`.
pub fn decode_varint(s: &[u8], i: usize) -> (r: Option<(u64, usize)>)
    requires
        i <= s.len(),
    ensures
        match r {
            Some(p) => {
                &&& varint_dec(s@.skip(i as int)) == Some((p.0 as nat, p.1 as nat))
                &&& 1 <= p.1
                &&& i + p.1 <= s.len()
            },
            None => (varint_dec(s@.skip(i as int)) matches Some(q) ==> q.0 > u64::MAX),
        },
    decreases s.len() - i,
{
    if i == s.len() {
        assert(s@.skip(i as int).len() == 0);
        None
    } else {
        let b = s[i];
        assert(s@.skip(i as int)[0] == b);
        if b < 128 {
            Some((b as u64, 1))
        } else {
            assert(s@.skip(i as int).skip(1) =~= s@.skip(i as int + 1));
            match decode_varint(s, i + 1) {
                None => None,
                Some((v, n)) => {
                    if v <= (u64::MAX - 127) / 128 {
                        Some(((b - 128) as u64 + 128 * v, n + 1))
                    } else {
                        None
                    }
                },
            }
        }
    }
}

/// Length-delimited block: varint byte count, then that many bytes.
pub open spec fn lendelim_enc(b: Seq<u8>) -> Seq<u8> {
    varint_enc(b.len()) + b
}

/// Parse a length-delimited block from the front of `s`: the payload and the
/// bytes consumed.
pub open spec fn lendelim_dec(s: Seq<u8>) -> Option<(Seq<u8>, nat)> {
    match varint_dec(s) {
        Some(p) => if p.1 + p.0 <= s.len() {
            Some((s.subrange(p.1 as int, (p.1 + p.0) as int), p.1 + p.0))
        } else {
            None
        },
        None => None,
    }
}

/// Parsing a length-delimited block reads only the block, whatever follows.
pub proof fn lemma_lendelim_dec_prefix(b: Seq<u8>, rest: Seq<u8>)
    ensures
        lendelim_dec(lendelim_enc(b) + rest) == Some((b, lendelim_enc(b).len())),
{
    let s = lendelim_enc(b) + rest;
    assert(s =~= varint_enc(b.len()) + (b + rest));
    lemma_varint_dec_prefix(b.len(), b + rest);
    let n = varint_enc(b.len()).len();
    assert(s.subrange(n as int, n + b.len() as int) =~= b);
}

/// Copy `s[a..b]` into a fresh vector.
pub fn copy_range(s: &[u8], a: usize, b: usize) -> (r: Vec<u8>)
    requires
        a <= b <= s.len(),
    ensures
        r@ == s@.subrange(a as int, b as int),
{
    let mut out: Vec<u8> = Vec::new();
    let mut j: usize = a;
    while j < b
        invariant
            a <= j <= b <= s.len(),
            out@ == s@.subrange(a as int, j as int),
        decreases b - j,
    {
        out.push(s[j]);
        assert(out@ =~= s@.subrange(a as int, j as int + 1));
        j = j + 1;
    }
    out
}

/// Frame a message payload for the wire: varint byte count, then the payload.
pub fn frame_payload(payload: &Vec<u8>) -> (r: Vec<u8>)
    ensures
        r@ == lendelim_enc(payload@),
{
    let mut out: Vec<u8> = Vec::new();
    encode_varint(payload.len() as u64, &mut out);
    let mut j: usize = 0;
    while j < payload.len()
        invariant
            j <= payload.len(),
            out@ == varint_enc(payload@.len()) + payload@.subrange(0, j as int),
        decreases payload.len() - j,
    {
        out.push(payload[j]);
        assert(out@ =~= varint_enc(payload@.len()) + payload@.subrange(0, j as int + 1));
        j = j + 1;
    }
    assert(out@ =~= lendelim_enc(payload@));
    out
}

/// Parse one frame at index `i` of `s`: the payload and the index just past
/// the frame. `None` when no complete, `u64`-sized frame starts there.
pub fn deframe_payload(s: &[u8], i: usize) -> (r: Option<(Vec<u8>, usize)>)
    requires
        i <= s.len(),
    ensures
        match r {
            Some(p) => {
                &&& lendelim_dec(s@.skip(i as int)) == Some((p.0@, (p.1 - i) as nat))
                &&& i < p.1 <= s.len()
            },
            None => lendelim_dec(s@.skip(i as int)) matches Some(q) ==> q.0.len() > u64::MAX,
        },
{
    match decode_varint(s, i) {
        None => None,
        Some((len, n)) => {
            if len <= (s.len() - i - n) as u64 {
                let start = i + n;
                let end = start + len as usize;
                let payload = copy_range(s, start, end);
                assert(s@.skip(i as int).subrange(n as int, n + len as int) =~= s@.subrange(
                    start as int,
                    end as int,
                ));
                Some((payload, end))
            } else {
                None
            }
        },
    }
}

} // verus!
