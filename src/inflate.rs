use vstd::prelude::*;

verus! {

/// The inflate engine's status for a step that made progress.
pub const Z_OK: i32 = 0;

/// The inflate engine's status for a step that reached the end of the
/// compressed stream.
pub const Z_STREAM_END: i32 = 1;

/// The inflate engine's status for a step that could make no progress.
pub const Z_BUF_ERROR: i32 = -5;

/// What to do after one inflate step on the current chunk.
#[derive(Debug, Clone, Copy, PartialEq, Eq)]
pub enum InflateStep {
    /// Run another step on the rest of the chunk.
    More,
    /// The chunk is consumed and no output is pending: wait for the next one.
    ChunkDone,
    /// The compressed data cannot be inflated: the response fails.
    Failed,
}

/// The decision after a step that reported `status`, consumed `consumed` of
/// the `chunk_len - fed` input bytes offered, and produced `produced` bytes into
/// an output window of `window` bytes; with the new count of bytes of the chunk
/// that have been fed. A full window may hide more output, so it always asks for
/// another step; a step that neither consumed nor produced while input remains
/// is a failure, so the steps on one chunk cannot go on forever.
pub open spec fn decide(
    fed: nat,
    chunk_len: nat,
    status: i32,
    consumed: nat,
    produced: nat,
    window: nat,
) -> (InflateStep, nat) {
    if fed > chunk_len || consumed > chunk_len - fed || produced > window {
        (InflateStep::Failed, fed)
    } else if status == Z_BUF_ERROR {
        if fed == chunk_len && consumed == 0 && produced == 0 {
            (InflateStep::ChunkDone, 0)
        } else {
            (InflateStep::Failed, fed)
        }
    } else if status != Z_OK && status != Z_STREAM_END {
        (InflateStep::Failed, fed)
    } else if produced == window && produced > 0 {
        (InflateStep::More, fed + consumed)
    } else if fed + consumed == chunk_len {
        (InflateStep::ChunkDone, 0)
    } else if consumed == 0 && produced == 0 {
        (InflateStep::Failed, fed)
    } else {
        (InflateStep::More, fed + consumed)
    }
}

/// The per-chunk bookkeeping of the inflate engine: how many bytes of the
/// current body chunk have been fed to it. It is zero between chunks.
#[derive(Debug)]
pub struct InflateFeed {
    fed: usize,
}

impl InflateFeed {
    pub closed spec fn fed(&self) -> nat {
        self.fed as nat
    }

    pub fn new() -> (r: InflateFeed)
        ensures
            r.fed() == 0,
    {
        InflateFeed { fed: 0 }
    }

    /// Where the input of the next step starts in the current chunk.
    pub fn input_start(&self) -> (r: usize)
        ensures
            r == self.fed(),
    {
        self.fed
    }

    /// Records one step and says what comes next.
    pub fn record(
        &mut self,
        chunk_len: usize,
        status: i32,
        consumed: usize,
        produced: usize,
        window: usize,
    ) -> (r: InflateStep)
        ensures
            (r, final(self).fed()) == decide(
                old(self).fed(),
                chunk_len as nat,
                status,
                consumed as nat,
                produced as nat,
                window as nat,
            ),
    {
        if self.fed > chunk_len || consumed > chunk_len - self.fed || produced > window {
            InflateStep::Failed
        } else if status == Z_BUF_ERROR {
            if self.fed == chunk_len && consumed == 0 && produced == 0 {
                self.fed = 0;
                InflateStep::ChunkDone
            } else {
                InflateStep::Failed
            }
        } else if status != Z_OK && status != Z_STREAM_END {
            InflateStep::Failed
        } else if produced == window && produced > 0 {
            self.fed = self.fed + consumed;
            InflateStep::More
        } else if self.fed + consumed == chunk_len {
            self.fed = 0;
            InflateStep::ChunkDone
        } else if consumed == 0 && produced == 0 {
            InflateStep::Failed
        } else {
            self.fed = self.fed + consumed;
            InflateStep::More
        }
    }
}

} // verus!
