//! Message framing on the wire: a four-byte little-endian length, then that
//! many payload bytes. A reader refuses any announced length over
//! `MAX_MESSAGE_BYTES` before allocating for it.
use vstd::prelude::*;

verus! {

/// The largest payload a reader accepts: 4 MiB.
pub const MAX_MESSAGE_BYTES: u32 = 4194304;

/// Why a frame cannot be written or read.
#[derive(Debug, Clone, Copy, PartialEq, Eq, Structural)]
pub enum FrameError {
    /// The payload is longer than a frame can carry (writing), or the
    /// announced length is over `MAX_MESSAGE_BYTES` (reading).
    TooLarge { len: u64 },
}

/// The four little-endian bytes of `n`.
pub open spec fn le_u32(n: u32) -> Seq<u8> {
    seq![
        (n % 256) as u8,
        ((n / 256) % 256) as u8,
        ((n / 65536) % 256) as u8,
        ((n / 16777216) % 256) as u8,
    ]
}

/// The number that four little-endian bytes encode.
pub open spec fn from_le(b: Seq<u8>) -> int {
    b[0] + 256 * b[1] + 65536 * b[2] + 16777216 * b[3]
}

/// A whole frame for `payload`: its length, then the payload.
pub open spec fn frame_spec(payload: Seq<u8>) -> Seq<u8> {
    le_u32(payload.len() as u32) + payload
}

/// Reading back the bytes of a length gives the length.
pub proof fn lemma_le_round_trip(n: u32)
    ensures
        le_u32(n).len() == 4,
        from_le(le_u32(n)) == n,
{
    let b = le_u32(n);
    assert(from_le(b) == n) by (nonlinear_arith)
        requires
            b[0] == n % 256,
            b[1] == (n / 256) % 256,
            b[2] == (n / 65536) % 256,
            b[3] == (n / 16777216) % 256,
            0 <= n < 4294967296,
    ;
}

/// Four bytes always encode a number that fits in a `u32`.
pub proof fn lemma_from_le_bounds(b: Seq<u8>)
    requires
        b.len() == 4,
    ensures
        0 <= from_le(b) <= u32::MAX,
{
}

/// The length header for a payload of `n` bytes.
pub fn length_header(n: u32) -> (r: [u8; 4])
    ensures
        r@ == le_u32(n),
{
    let r = [(n % 256) as u8, ((n / 256) % 256) as u8, ((n / 65536) % 256) as u8, ((n / 16777216) % 256) as u8];
    assert(r@ =~= le_u32(n));
    r
}

/// The length a header announces.
pub fn header_len(h: [u8; 4]) -> (r: u32)
    ensures
        r == from_le(h@),
{
    let r: u32 = h[0] as u32 + 256 * (h[1] as u32) + 65536 * (h[2] as u32) + 16777216 * (h[3] as u32);
    r
}

/// Frame `payload` for writing: its length as four little-endian bytes, then
/// the payload. Fails when the payload is longer than `u32::MAX` bytes.
pub fn encode_frame(payload: &[u8]) -> (r: Result<Vec<u8>, FrameError>)
    ensures
        payload@.len() <= u32::MAX ==> (r matches Ok(v) && v@ == frame_spec(payload@)),
        payload@.len() > u32::MAX ==> r == Err::<Vec<u8>, FrameError>(
            FrameError::TooLarge { len: payload@.len() as u64 },
        ),
{
    if payload.len() > 4294967295usize {
        return Err(FrameError::TooLarge { len: payload.len() as u64 });
    }
    let n = payload.len() as u32;
    let h = length_header(n);
    let mut v: Vec<u8> = Vec::new();
    v.push(h[0]);
    v.push(h[1]);
    v.push(h[2]);
    v.push(h[3]);
    let mut i: usize = 0;
    while i < payload.len()
        invariant
            0 <= i <= payload@.len(),
            v@ == le_u32(n) + payload@.take(i as int),
            n == payload@.len(),
        decreases payload@.len() - i,
    {
        v.push(payload[i]);
        assert(payload@.take(i + 1) =~= payload@.take(i as int).push(payload@[i as int]));
        i = i + 1;
    }
    assert(payload@.take(payload@.len() as int) =~= payload@);
    Ok(v)
}

/// The payload length a received header announces, or `TooLarge` when it is
/// over `MAX_MESSAGE_BYTES`.
pub fn frame_len(header: [u8; 4]) -> (r: Result<usize, FrameError>)
    ensures
        from_le(header@) <= MAX_MESSAGE_BYTES ==> r == Ok::<usize, FrameError>(from_le(header@) as usize),
        from_le(header@) > MAX_MESSAGE_BYTES ==> r == Err::<usize, FrameError>(
            FrameError::TooLarge { len: from_le(header@) as u64 },
        ),
{
    let len = header_len(header);
    if len > MAX_MESSAGE_BYTES {
        return Err(FrameError::TooLarge { len: len as u64 });
    }
    Ok(len as usize)
}

/// A frame written for a payload the reader accepts announces exactly the
/// payload's length, and the payload follows the header unchanged.
pub proof fn lemma_frame_round_trip(payload: Seq<u8>)
    requires
        payload.len() <= MAX_MESSAGE_BYTES,
    ensures
        frame_spec(payload).len() == 4 + payload.len(),
        from_le(frame_spec(payload).take(4)) == payload.len(),
        frame_spec(payload).skip(4) == payload,
{
    lemma_le_round_trip(payload.len() as u32);
    assert(frame_spec(payload).take(4) =~= le_u32(payload.len() as u32));
    assert(frame_spec(payload).skip(4) =~= payload);
}

} // verus!
