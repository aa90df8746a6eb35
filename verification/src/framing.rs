//! Length-prefixed frames: `[u32 little-endian payload length][payload]`,
//! with payloads of at most [`MAX_FRAME_SIZE`] bytes.

use vstd::prelude::*;

use bytes::BytesMut;

use crate::buffer::{
    bytes_extend_from_slice, bytes_mut_contents, bytes_put_u32_le, bytes_with_capacity,
    le_bytes_u32,
};
use crate::errors::WattchError;

verus! {

/// The largest payload a frame may carry (1 MiB).
pub const MAX_FRAME_SIZE: usize = 1024 * 1024;

/// The value of four bytes read least significant first.
pub open spec fn le_u32_value(b: Seq<u8>) -> nat
    recommends
        b.len() >= 4,
{
    b[0] as nat + 256 * (b[1] as nat) + 65536 * (b[2] as nat) + 16777216 * (b[3] as nat)
}

/// The frame that carries `payload`.
pub open spec fn spec_encode_frame(payload: Seq<u8>) -> Seq<u8> {
    le_bytes_u32(payload.len() as u32) + payload
}

/// The payload length a frame's header announces.
pub open spec fn declared_len(frame: Seq<u8>) -> nat {
    le_u32_value(frame.take(4))
}

/// The payload of a well-formed frame: a header announcing at most
/// [`MAX_FRAME_SIZE`] bytes, followed by exactly that many bytes.
pub open spec fn decoded_payload(frame: Seq<u8>) -> Option<Seq<u8>> {
    if frame.len() >= 4 && declared_len(frame) <= MAX_FRAME_SIZE && frame.len() - 4
        == declared_len(frame) {
        Some(frame.skip(4))
    } else {
        None
    }
}

/// Frames `payload`, refusing one larger than [`MAX_FRAME_SIZE`].
pub fn encode_frame(payload: &[u8]) -> (r: Result<BytesMut, WattchError>)
    ensures
        payload@.len() > MAX_FRAME_SIZE ==> r == Err::<BytesMut, WattchError>(
            WattchError::FrameTooLarge { size: payload@.len() as usize, max: MAX_FRAME_SIZE },
        ),
        payload@.len() <= MAX_FRAME_SIZE ==> r is Ok && bytes_mut_contents(r->Ok_0)
            == spec_encode_frame(payload@),
{
    let payload_len = payload.len();
    if payload_len > MAX_FRAME_SIZE {
        return Err(WattchError::FrameTooLarge { size: payload_len, max: MAX_FRAME_SIZE });
    }
    let mut frame = bytes_with_capacity(4 + payload_len);
    bytes_put_u32_le(&mut frame, payload_len as u32);
    bytes_extend_from_slice(&mut frame, payload);
    Ok(frame)
}

/// Reads the payload length from a frame header, refusing one larger than
/// [`MAX_FRAME_SIZE`].
pub fn frame_payload_len(header: [u8; 4]) -> (r: Result<usize, WattchError>)
    ensures
        le_u32_value(header@) <= MAX_FRAME_SIZE ==> r == Ok::<usize, WattchError>(
            le_u32_value(header@) as usize,
        ),
        le_u32_value(header@) > MAX_FRAME_SIZE ==> r == Err::<usize, WattchError>(
            WattchError::FrameTooLarge {
                size: le_u32_value(header@) as usize,
                max: MAX_FRAME_SIZE,
            },
        ),
{
    let value: u32 = header[0] as u32 + 256 * (header[1] as u32) + 65536 * (header[2] as u32)
        + 16777216 * (header[3] as u32);
    let payload_len = value as usize;
    if payload_len > MAX_FRAME_SIZE {
        return Err(WattchError::FrameTooLarge { size: payload_len, max: MAX_FRAME_SIZE });
    }
    Ok(payload_len)
}

/// Checks a complete frame and hands back its payload.
pub fn decode_frame(frame: &[u8]) -> (r: Result<&[u8], WattchError>)
    ensures
        frame@.len() < 4 ==> r == Err::<&[u8], WattchError>(
            WattchError::TruncatedPayload { expected: 4, actual: frame@.len() as usize },
        ),
        frame@.len() >= 4 && declared_len(frame@) > MAX_FRAME_SIZE ==> r == Err::<
            &[u8],
            WattchError,
        >(WattchError::FrameTooLarge { size: declared_len(frame@) as usize, max: MAX_FRAME_SIZE }),
        frame@.len() >= 4 && declared_len(frame@) <= MAX_FRAME_SIZE && frame@.len() - 4
            < declared_len(frame@) ==> r == Err::<&[u8], WattchError>(
            WattchError::TruncatedPayload {
                expected: declared_len(frame@) as usize,
                actual: (frame@.len() - 4) as usize,
            },
        ),
        frame@.len() >= 4 && declared_len(frame@) <= MAX_FRAME_SIZE && frame@.len() - 4
            > declared_len(frame@) ==> (r matches Err(WattchError::BadRequest(m)) && m@
            == "frame contains trailing bytes after protobuf payload"@),
        r is Ok <==> decoded_payload(frame@) is Some,
        r is Ok ==> r->Ok_0@ == decoded_payload(frame@)->0,
{
    if frame.len() < 4 {
        return Err(WattchError::TruncatedPayload { expected: 4, actual: frame.len() });
    }
    let header: [u8; 4] = [frame[0], frame[1], frame[2], frame[3]];
    assert(header@ == frame@.take(4));
    let payload_len = match frame_payload_len(header) {
        Ok(n) => n,
        Err(e) => return Err(e),
    };
    let actual_len = frame.len() - 4;
    if actual_len < payload_len {
        return Err(WattchError::TruncatedPayload { expected: payload_len, actual: actual_len });
    }
    if actual_len > payload_len {
        return Err(
            WattchError::BadRequest(
                "frame contains trailing bytes after protobuf payload".to_string(),
            ),
        );
    }
    Ok(vstd::slice::slice_subrange(frame, 4, frame.len()))
}

/// Decoding the frame of any payload that fits gives that payload back.
pub proof fn lemma_decode_encode(payload: Seq<u8>)
    requires
        payload.len() <= MAX_FRAME_SIZE,
    ensures
        decoded_payload(spec_encode_frame(payload)) == Some(payload),
{
    let n = payload.len() as u32;
    let f = spec_encode_frame(payload);
    assert(f.take(4) == le_bytes_u32(n));
    assert(le_u32_value(le_bytes_u32(n)) == n) by (nonlinear_arith)
        requires
            le_bytes_u32(n) == seq![
                (n % 256) as u8,
                ((n / 256) % 256) as u8,
                ((n / 65536) % 256) as u8,
                ((n / 16777216) % 256) as u8,
            ],
    {
    }
    assert(f.skip(4) == payload);
}

/// A well-formed frame is exactly the frame of its payload.
pub proof fn lemma_encode_decode(frame: Seq<u8>)
    requires
        decoded_payload(frame) is Some,
    ensures
        spec_encode_frame(decoded_payload(frame)->0) == frame,
{
    let p = frame.skip(4);
    let n = p.len() as u32;
    let h = frame.take(4);
    assert(le_u32_value(h) == n);
    assert(le_bytes_u32(n) == h) by {
        let b0 = h[0] as nat;
        let b1 = h[1] as nat;
        let b2 = h[2] as nat;
        let b3 = h[3] as nat;
        assert((n as nat) % 256 == b0 && ((n as nat) / 256) % 256 == b1 && ((n as nat) / 65536)
            % 256 == b2 && ((n as nat) / 16777216) % 256 == b3) by (nonlinear_arith)
            requires
                n as nat == b0 + 256 * b1 + 65536 * b2 + 16777216 * b3,
                b0 < 256,
                b1 < 256,
                b2 < 256,
                b3 < 256,
        {
        }
        assert(le_bytes_u32(n) =~= h);
    }
    assert(spec_encode_frame(p) =~= frame);
}

} // verus!
