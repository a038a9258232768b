//! Video frames for websocket subscribers: a frame too large for one message
//! is cut into fixed-size chunks.
use vstd::prelude::*;

verus! {

/// The largest chunk of frame data in one message, in bytes.
pub const MAX_CHUNK_SIZE: usize = 32000;

/// The number of chunks of a frame of `len` bytes.
pub open spec fn chunk_count(len: nat) -> nat {
    ((len as int) / (MAX_CHUNK_SIZE as int) + if (len as int) % (MAX_CHUNK_SIZE as int) != 0 {
        1int
    } else {
        0
    }) as nat
}

/// The byte ranges of the chunks of a frame of `len` bytes: chunk `k` covers
/// `[k * MAX_CHUNK_SIZE, min((k + 1) * MAX_CHUNK_SIZE, len))`. A frame of
/// one chunk is sent as one frame message.
pub fn video_chunk_bounds(len: usize) -> (r: Vec<(usize, usize)>)
    ensures
        r@.len() == chunk_count(len as nat),
        forall|k: int|
            0 <= k < r@.len() ==> (#[trigger] r@[k]).0 == k * MAX_CHUNK_SIZE && r@[k].1 == if (k + 1)
                * MAX_CHUNK_SIZE <= len {
                (k + 1) * MAX_CHUNK_SIZE
            } else {
                len as int
            },
{
    let count = len / MAX_CHUNK_SIZE + if len % MAX_CHUNK_SIZE != 0 {
        1
    } else {
        0
    };
    let mut out: Vec<(usize, usize)> = Vec::new();
    let mut start: usize = 0;
    let mut k: usize = 0;
    while k < count
        invariant
            count == chunk_count(len as nat),
            k <= count,
            out@.len() == k,
            k < count ==> start == k * MAX_CHUNK_SIZE && start < len,
            forall|j: int|
                0 <= j < k ==> (#[trigger] out@[j]).0 == j * MAX_CHUNK_SIZE && out@[j].1 == if (j
                    + 1) * MAX_CHUNK_SIZE <= len {
                    (j + 1) * MAX_CHUNK_SIZE
                } else {
                    len as int
                },
        decreases count - k,
    {
        let end = if len - start > MAX_CHUNK_SIZE {
            start + MAX_CHUNK_SIZE
        } else {
            len
        };
        out.push((start, end));
        k += 1;
        start = end;
        proof {
            assert(k < count ==> start == k * MAX_CHUNK_SIZE && start < len) by (nonlinear_arith)
                requires
                    count == len / 32000 + if len % 32000 != 0 {
                        1int
                    } else {
                        0
                    },
                    MAX_CHUNK_SIZE == 32000,
                    end == if len - (k - 1) * 32000 > 32000 {
                        (k - 1) * 32000 + 32000
                    } else {
                        len as int
                    },
                    start == end,
                    (k - 1) * 32000 < len,
                    k >= 1,
            ;
        }
    }
    out
}

} // verus!
