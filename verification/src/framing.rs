//! Length-prefixed framing of the channel: a little-endian `u32` length,
//! then exactly that many bytes of JSON. (The channel's byte order is the
//! platform's native order, which is little-endian on every platform the
//! peer runs on; it is fixed here.) A zero-length read signals graceful EOF:
//! a frame that declares no body, and a frame whose declared body does not
//! fully arrive before the stream closes, are an orderly end of session,
//! never an error.

use vstd::prelude::*;

verus! {

use vstd::bytes::{
    spec_u32_from_le_bytes,
    spec_u32_to_le_bytes,
    u32_from_le_bytes,
    u32_to_le_bytes,
    lemma_auto_spec_u32_to_from_le_bytes,
};
use vstd::slice::{slice_subrange, slice_to_vec};

/// The body length a 4-byte frame header declares.
pub fn frame_length(header: &[u8]) -> (r: u32)
    requires
        header@.len() == 4,
    ensures
        r == spec_u32_from_le_bytes(header@),
{
    u32_from_le_bytes(header)
}

/// One whole frame: the length prefix followed by the payload.
pub fn encode_frame(payload: &[u8]) -> (r: Vec<u8>)
    requires
        payload@.len() <= u32::MAX,
    ensures
        r@.len() == 4 + payload@.len(),
        spec_u32_from_le_bytes(r@.subrange(0, 4)) == payload@.len(),
        r@.skip(4) == payload@,
{
    let mut r = u32_to_le_bytes(payload.len() as u32);
    r.extend_from_slice(payload);
    proof {
        lemma_auto_spec_u32_to_from_le_bytes();
        assert(r@.subrange(0, 4) =~= spec_u32_to_le_bytes(payload@.len() as u32));
        assert(r@.skip(4) =~= payload@);
    }
    r
}

/// What reading the next frame from a closed channel's bytes yields.
pub enum FrameOutcome {
    /// The stream ended at a frame boundary, or closed before a declared body
    /// fully arrived: an orderly end of session.
    Eof,
    /// One complete frame body, and the position just after it.
    Frame(Vec<u8>, usize),
}

/// The frame bodies a closed channel's bytes carry, in order, up to the
/// first graceful EOF: a missing or truncated header, a zero declared
/// length, and a declared body the stream closed inside of all end the
/// sequence.
pub open spec fn frames_of(stream: Seq<u8>, pos: int) -> Seq<Seq<u8>>
    recommends
        0 <= pos <= stream.len(),
    decreases stream.len() - pos,
    when 0 <= pos <= stream.len()
{
    if pos + 4 > stream.len() {
        Seq::empty()
    } else {
        let n = spec_u32_from_le_bytes(stream.subrange(pos, pos + 4)) as int;
        if n == 0 || pos + 4 + n > stream.len() {
            Seq::empty()
        } else {
            seq![stream.subrange(pos + 4, pos + 4 + n)] + frames_of(stream, pos + 4 + n)
        }
    }
}

/// Takes the frame at `pos` from the bytes the channel delivered before it
/// closed. A missing or truncated header, a frame that declares no body (a
/// zero-length read), and a declared body the stream closed inside of are
/// all `Eof`.
pub fn next_frame(stream: &[u8], pos: usize) -> (r: FrameOutcome)
    requires
        pos <= stream@.len(),
    ensures
        ({
            let remaining = stream@.len() - pos;
            if remaining < 4 {
                r is Eof
            } else {
                let n = spec_u32_from_le_bytes(stream@.subrange(pos as int, pos + 4));
                if n == 0 || remaining < 4 + n {
                    r is Eof
                } else {
                    (r matches FrameOutcome::Frame(body, next) && body@ == stream@.subrange(
                        pos + 4,
                        pos + 4 + n,
                    ) && next == pos + 4 + n)
                }
            }
        }),
        r is Eof <==> frames_of(stream@, pos as int).len() == 0,
        r matches FrameOutcome::Frame(body, next) ==> pos < next <= stream@.len() && frames_of(
            stream@,
            pos as int,
        ) == seq![body@] + frames_of(stream@, next as int),
{
    if stream.len() - pos < 4 {
        return FrameOutcome::Eof;
    }
    let header = slice_subrange(stream, pos, pos + 4);
    let n = u32_from_le_bytes(header) as usize;
    if n == 0 || stream.len() - (pos + 4) < n {
        return FrameOutcome::Eof;
    }
    let body = slice_to_vec(slice_subrange(stream, pos + 4, pos + 4 + n));
    FrameOutcome::Frame(body, pos + 4 + n)
}

} // verus!
