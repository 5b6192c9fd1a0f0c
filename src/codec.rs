//! Length-prefixed framing: a 4-byte big-endian length, then the payload.
use vstd::prelude::*;

verus! {

/// Why a frame could not be taken from a byte buffer.
#[derive(Debug, Clone, Copy, PartialEq, Eq, Structural)]
pub enum FrameError {
    /// Fewer bytes than the prefix, or than the declared length, are present.
    Framing,
}

/// The four big-endian bytes of `n`.
pub open spec fn be_bytes(n: u32) -> Seq<u8> {
    seq![(n >> 24u32) as u8, (n >> 16u32) as u8, (n >> 8u32) as u8, n as u8]
}

/// The number that four big-endian bytes denote.
pub open spec fn be_value(b0: u8, b1: u8, b2: u8, b3: u8) -> u32 {
    ((b0 as u32) << 24u32) | ((b1 as u32) << 16u32) | ((b2 as u32) << 8u32) | (b3 as u32)
}

fn be_u32(b0: u8, b1: u8, b2: u8, b3: u8) -> (r: u32)
    ensures
        r == be_value(b0, b1, b2, b3),
{
    ((b0 as u32) << 24u32) | ((b1 as u32) << 16u32) | ((b2 as u32) << 8u32) | (b3 as u32)
}

/// The length that the first four bytes of `b` declare.
pub open spec fn declared_len(b: Seq<u8>) -> nat
    recommends
        b.len() >= 4,
{
    be_value(b[0], b[1], b[2], b[3]) as nat
}

/// The frame that carries `payload`.
pub open spec fn frame_of(payload: Seq<u8>) -> Seq<u8>
    recommends
        payload.len() <= u32::MAX,
{
    be_bytes(payload.len() as u32) + payload
}

/// The payload of the frame at the start of `b`, if all of it is there.
pub open spec fn payload_of(b: Seq<u8>) -> Option<Seq<u8>> {
    if b.len() >= 4 && 4 + declared_len(b) <= b.len() {
        Some(b.subrange(4, 4 + declared_len(b) as int))
    } else {
        None
    }
}

proof fn lemma_be_inverse(n: u32)
    ensures
        be_value((n >> 24u32) as u8, (n >> 16u32) as u8, (n >> 8u32) as u8, n as u8) == n,
{
    assert(((((n >> 24u32) as u8) as u32) << 24u32) | ((((n >> 16u32) as u8) as u32) << 16u32)
        | ((((n >> 8u32) as u8) as u32) << 8u32) | ((n as u8) as u32) == n) by (bit_vector);
}

/// Decoding the frame that encoding made gives back the payload, the empty one too.
pub proof fn lemma_frame_round_trip(payload: Seq<u8>)
    requires
        payload.len() <= u32::MAX,
    ensures
        payload_of(frame_of(payload)) == Some(payload),
{
    let f = frame_of(payload);
    let n = payload.len() as u32;
    lemma_be_inverse(n);
    assert(f[0] == (n >> 24u32) as u8 && f[1] == (n >> 16u32) as u8);
    assert(f[2] == (n >> 8u32) as u8 && f[3] == n as u8);
    assert(declared_len(f) == payload.len());
    assert(f.subrange(4, 4 + payload.len() as int) =~= payload);
}

/// Writes the frame of `payload`: its length, measured here, then its bytes.
pub fn encode_frame(payload: &[u8]) -> (r: Vec<u8>)
    requires
        payload@.len() <= u32::MAX,
    ensures
        r@ == frame_of(payload@),
{
    let n = payload.len() as u32;
    let mut r: Vec<u8> = Vec::new();
    r.push((n >> 24u32) as u8);
    r.push((n >> 16u32) as u8);
    r.push((n >> 8u32) as u8);
    r.push(n as u8);
    let mut i: usize = 0;
    while i < payload.len()
        invariant
            0 <= i <= payload@.len(),
            r@ == be_bytes(n) + payload@.subrange(0, i as int),
            n == payload@.len(),
        decreases payload@.len() - i,
    {
        r.push(payload[i]);
        i += 1;
        assert(payload@.subrange(0, i as int) =~= payload@.subrange(0, i - 1) + seq![payload@[i - 1]]);
    }
    assert(payload@.subrange(0, i as int) =~= payload@);
    r
}

/// The payload length that a 4-byte prefix declares.
pub fn frame_length(prefix: &[u8]) -> (r: usize)
    requires
        prefix@.len() == 4,
    ensures
        r as nat == declared_len(prefix@),
{
    be_u32(prefix[0], prefix[1], prefix[2], prefix[3]) as usize
}

/// Takes the payload of the frame at the start of `bytes`; a `Framing` error
/// where the prefix or the declared number of bytes is not all there.
pub fn decode_frame(bytes: &[u8]) -> (r: Result<Vec<u8>, FrameError>)
    ensures
        match r {
            Ok(p) => payload_of(bytes@) == Some(p@),
            Err(_) => payload_of(bytes@) is None,
        },
{
    if bytes.len() < 4 {
        return Err(FrameError::Framing);
    }
    let n = be_u32(bytes[0], bytes[1], bytes[2], bytes[3]) as usize;
    if n > bytes.len() - 4 {
        return Err(FrameError::Framing);
    }
    let mut p: Vec<u8> = Vec::new();
    let mut i: usize = 0;
    while i < n
        invariant
            i <= n,
            n + 4 <= bytes@.len() == bytes.len(),
            n == declared_len(bytes@),
            p@ == bytes@.subrange(4, 4 + i),
        decreases n - i,
    {
        p.push(bytes[4 + i]);
        i += 1;
        assert(bytes@.subrange(4, 4 + i) =~= bytes@.subrange(4, 4 + i - 1) + seq![bytes@[4 + i - 1]]);
    }
    Ok(p)
}

} // verus!
