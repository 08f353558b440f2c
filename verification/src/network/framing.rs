//! Length-prefixed framing of the byte stream between client and server.
//!
//! Every message travels as a four-byte big-endian length followed by that
//! many bytes of payload. A reader refuses any length above
//! [`MAX_PAYLOAD_SIZE`] before it reads the body, so an untrusted peer cannot
//! make it allocate without bound.
use vstd::prelude::*;

use crate::error::WireError;

verus! {

/// The largest payload a reader accepts: ten mebibytes.
pub const MAX_PAYLOAD_SIZE: usize = 10485760;

/// The number of bytes of the length header.
pub const HEADER_LEN: usize = 4;

/// The four big-endian bytes of `n`.
pub open spec fn be_bytes(n: u32) -> Seq<u8> {
    seq![
        (n / 0x100_0000) as u8,
        ((n / 0x1_0000) % 0x100) as u8,
        ((n / 0x100) % 0x100) as u8,
        (n % 0x100) as u8,
    ]
}

/// The number that four big-endian bytes spell.
pub open spec fn be_value(b: Seq<u8>) -> int
    recommends
        b.len() == 4,
{
    b[0] * 0x100_0000 + b[1] * 0x1_0000 + b[2] * 0x100 + b[3]
}

/// The header written in front of a payload of `len` bytes: the length cut
/// to 32 bits, big-endian, as `(len as u32).to_be_bytes()` writes it.
pub open spec fn header_spec(len: usize) -> Seq<u8> {
    be_bytes(len as u32)
}

/// A whole frame for `payload`.
pub open spec fn encode_spec(payload: Seq<u8>) -> Seq<u8> {
    header_spec(payload.len() as usize) + payload
}

/// What a header announces: its length, or `PayloadTooLarge` above the cap.
pub open spec fn parse_header_spec(h: Seq<u8>) -> Result<usize, WireError>
    recommends
        h.len() == 4,
{
    if be_value(h) > MAX_PAYLOAD_SIZE {
        Err(WireError::PayloadTooLarge)
    } else {
        Ok(be_value(h) as usize)
    }
}

/// What the front of `buf` holds: nothing complete yet (`Ok(None)`), a frame
/// with its payload and the number of bytes it takes (`Ok(Some(..))`), or a
/// header above the cap (`Err(PayloadTooLarge)`).
pub open spec fn decode_spec(buf: Seq<u8>) -> Result<Option<(Seq<u8>, nat)>, WireError> {
    if buf.len() < 4 {
        Ok(None)
    } else {
        let len = be_value(buf.subrange(0, 4));
        if len > MAX_PAYLOAD_SIZE {
            Err(WireError::PayloadTooLarge)
        } else if buf.len() < 4 + len {
            Ok(None)
        } else {
            Ok(Some((buf.subrange(4, 4 + len), (4 + len) as nat)))
        }
    }
}

proof fn lemma_be_roundtrip(n: u32)
    ensures
        be_bytes(n).len() == 4,
        be_value(be_bytes(n)) == n,
{
    let b = be_bytes(n);
    assert(b[0] == n / 0x100_0000);
    assert(b[1] == (n / 0x1_0000) % 0x100);
    assert(b[2] == (n / 0x100) % 0x100);
    assert(b[3] == n % 0x100);
    assert(be_value(b) == n) by (nonlinear_arith)
        requires
            b[0] == n / 0x100_0000,
            b[1] == (n / 0x1_0000) % 0x100,
            b[2] == (n / 0x100) % 0x100,
            b[3] == n % 0x100,
            n <= u32::MAX,
            be_value(b) == b[0] * 0x100_0000 + b[1] * 0x1_0000 + b[2] * 0x100 + b[3],
    ;
}

proof fn lemma_small_len_cast(len: usize)
    requires
        len <= MAX_PAYLOAD_SIZE,
    ensures
        len as u32 == len,
{
}

/// The length header for a payload of `len` bytes.
pub fn frame_header(len: usize) -> (h: [u8; 4])
    ensures
        h@ == header_spec(len),
{
    #[verifier::truncate]
    let n = len as u32;
    let h = [
        (n / 0x100_0000) as u8,
        ((n / 0x1_0000) % 0x100) as u8,
        ((n / 0x100) % 0x100) as u8,
        (n % 0x100) as u8,
    ];
    assert(h@ =~= be_bytes(n));
    h
}

/// The payload length that a header announces, refused above the cap.
pub fn parse_frame_header(h: [u8; 4]) -> (r: Result<usize, WireError>)
    ensures
        r == parse_header_spec(h@),
{
    let len: u32 = (h[0] as u32) * 0x100_0000 + (h[1] as u32) * 0x1_0000 + (h[2] as u32) * 0x100
        + (h[3] as u32);
    if len as usize > MAX_PAYLOAD_SIZE {
        Err(WireError::PayloadTooLarge)
    } else {
        Ok(len as usize)
    }
}

/// The frame that carries `payload`: its header, then the payload itself.
pub fn encode_frame(payload: &[u8]) -> (r: Vec<u8>)
    ensures
        r@ == encode_spec(payload@),
{
    let h = frame_header(payload.len());
    let mut r: Vec<u8> = Vec::new();
    r.push(h[0]);
    r.push(h[1]);
    r.push(h[2]);
    r.push(h[3]);
    let mut i: usize = 0;
    while i < payload.len()
        invariant
            i <= payload@.len(),
            r@ == h@ + payload@.subrange(0, i as int),
        decreases payload@.len() - i,
    {
        r.push(payload[i]);
        i = i + 1;
        assert(r@ =~= h@ + payload@.subrange(0, i as int));
    }
    assert(payload@.subrange(0, payload@.len() as int) =~= payload@);
    r
}

/// The first frame at the front of `buf`, if it is complete.
pub fn decode_frame(buf: &[u8]) -> (r: Result<Option<(Vec<u8>, usize)>, WireError>)
    ensures
        match (r, decode_spec(buf@)) {
            (Ok(None), Ok(None)) => true,
            (Ok(Some((p, n))), Ok(Some((sp, sn)))) => p@ == sp && n == sn,
            (Err(e), Err(se)) => e == se,
            _ => false,
        },
{
    if buf.len() < 4 {
        return Ok(None);
    }
    let h: [u8; 4] = [buf[0], buf[1], buf[2], buf[3]];
    assert(h@ =~= buf@.subrange(0, 4));
    let len = match parse_frame_header(h) {
        Ok(len) => len,
        Err(e) => {
            return Err(e);
        },
    };
    if buf.len() - 4 < len {
        return Ok(None);
    }
    let mut p: Vec<u8> = Vec::new();
    let mut i: usize = 0;
    while i < len
        invariant
            i <= len,
            4 + len <= buf.len(),
            p@ == buf@.subrange(4, 4 + i),
        decreases len - i,
    {
        p.push(buf[4 + i]);
        i = i + 1;
        assert(p@ =~= buf@.subrange(4, 4 + i));
    }
    Ok(Some((p, 4 + len)))
}

/// A header read back gives the length it was written for, for every length
/// up to the cap.
pub proof fn law_header_roundtrip(len: usize)
    requires
        len <= MAX_PAYLOAD_SIZE,
    ensures
        parse_header_spec(header_spec(len)) == Ok::<usize, WireError>(len),
{
    lemma_small_len_cast(len);
    lemma_be_roundtrip(len as u32);
}

/// Every header that announces more than the cap is refused.
pub proof fn law_oversized_header_refused(h: Seq<u8>)
    requires
        h.len() == 4,
        be_value(h) > MAX_PAYLOAD_SIZE,
    ensures
        parse_header_spec(h) == Err::<usize, WireError>(WireError::PayloadTooLarge),
{
}

/// A reader gets back exactly the payload that a writer framed, and consumes
/// exactly that frame, whatever bytes follow it in the stream.
pub proof fn law_frame_roundtrip(payload: Seq<u8>, rest: Seq<u8>)
    requires
        payload.len() <= MAX_PAYLOAD_SIZE,
    ensures
        decode_spec(encode_spec(payload) + rest) == Ok::<Option<(Seq<u8>, nat)>, WireError>(
            Some((payload, (4 + payload.len()) as nat)),
        ),
{
    let len = payload.len() as usize;
    lemma_small_len_cast(len);
    lemma_be_roundtrip(len as u32);
    let buf = encode_spec(payload) + rest;
    assert(buf.subrange(0, 4) =~= header_spec(len));
    assert(buf.subrange(4, 4 + payload.len() as int) =~= payload);
}

/// The stream a writer produces for the payloads `ps`: each one framed, in
/// order.
pub open spec fn encode_all(ps: Seq<Seq<u8>>) -> Seq<u8>
    decreases ps.len(),
{
    if ps.len() == 0 {
        Seq::empty()
    } else {
        encode_spec(ps[0]) + encode_all(ps.drop_first())
    }
}

/// What a reader gets by decoding `k` frames one after another from the
/// front of `buf`: the payloads in order and the bytes that remain, or
/// `None` when one of the frames is incomplete or refused.
pub open spec fn decode_stream(buf: Seq<u8>, k: nat) -> Option<(Seq<Seq<u8>>, Seq<u8>)>
    decreases k,
{
    if k == 0 {
        Some((Seq::empty(), buf))
    } else {
        match decode_spec(buf) {
            Ok(Some((p, n))) => match decode_stream(buf.subrange(n as int, buf.len() as int), (k - 1) as nat) {
                Some((ps, rest)) => Some((seq![p] + ps, rest)),
                None => None,
            },
            _ => None,
        }
    }
}

/// A reader that decodes as many frames as a writer framed payloads gets
/// back every payload, in the order written, and leaves exactly the bytes
/// that followed them in the stream.
pub proof fn law_stream_roundtrip(ps: Seq<Seq<u8>>, rest: Seq<u8>)
    requires
        forall|i: int| 0 <= i < ps.len() ==> #[trigger] ps[i].len() <= MAX_PAYLOAD_SIZE,
    ensures
        decode_stream(encode_all(ps) + rest, ps.len()) == Some((ps, rest)),
    decreases ps.len(),
{
    if ps.len() == 0 {
        assert(encode_all(ps) + rest =~= rest);
        assert(ps =~= Seq::<Seq<u8>>::empty());
    } else {
        let p = ps[0];
        let tail = ps.drop_first();
        let more = encode_all(tail) + rest;
        let buf = encode_all(ps) + rest;
        assert(buf =~= encode_spec(p) + more);
        let n: nat = (4 + p.len()) as nat;
        assert(decode_spec(buf) == Ok::<Option<(Seq<u8>, nat)>, WireError>(Some((p, n)))) by {
            law_frame_roundtrip(p, more);
        }
        assert(buf.subrange(n as int, buf.len() as int) =~= more) by {
            lemma_be_roundtrip(p.len() as u32);
        }
        assert forall|i: int| 0 <= i < tail.len() implies #[trigger] tail[i].len() <= MAX_PAYLOAD_SIZE by {
            assert(tail[i] == ps[i + 1]);
        }
        law_stream_roundtrip(tail, rest);
        assert(decode_stream(more, tail.len()) == Some((tail, rest)));
        assert(seq![p] + tail =~= ps);
    }
}

} // verus!
