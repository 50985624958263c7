use vstd::prelude::*;

use crate::accumulator::FixedAccumulator;
use crate::dispatch::FrameDecoder;

verus! {

/// A decoder for fixed-size frames: a message is complete exactly when at
/// least `frame_size` bytes are buffered, and the handler consumes exactly
/// `frame_size` bytes per invocation.  Every consumed byte is recorded in
/// `bytes_seen`, in arrival order, and `frames_handled` counts the
/// invocations (saturating).
pub struct SizedFrameDecoder {
    pub frame_size: usize,
    pub frames_handled: usize,
    pub bytes_seen: Vec<u8>,
}

impl SizedFrameDecoder {
    /// A fresh decoder for frames of `frame_size` bytes.
    pub fn new(frame_size: usize) -> (d: Self)
        ensures
            d.frame_size == frame_size,
            d.frames_handled == 0,
            d.bytes_seen@ == Seq::<u8>::empty(),
    {
        SizedFrameDecoder { frame_size, frames_handled: 0, bytes_seen: Vec::new() }
    }
}

impl FrameDecoder for SizedFrameDecoder {
    open spec fn ready(&self, first: u8, count: nat) -> bool {
        0 < self.frame_size <= count
    }

    open spec fn frame_len(&self, s: Seq<u8>) -> nat {
        self.frame_size as nat
    }

    fn can_handle(&self, first: u8, count: usize) -> (r: bool) {
        0 < self.frame_size && self.frame_size <= count
    }

    fn handle(&mut self, acc: &mut FixedAccumulator) {
        let k = self.frame_size;
        let mut i: usize = 0;
        while i < k
            invariant
                i <= k,
                *acc == *old(acc),
                acc.wf(),
                k == self.frame_size,
                self.frame_size == old(self).frame_size,
                k <= acc.contents().len(),
            decreases k - i,
        {
            let b = acc.byte_at(i);
            self.bytes_seen.push(b);
            i += 1;
        }
        acc.consume_front(k);
        if self.frames_handled < usize::MAX {
            self.frames_handled = self.frames_handled + 1;
        }
    }
}

/// A decoder for length-prefixed frames: the first buffered byte names the
/// payload length, a message is complete when that many further bytes have
/// arrived, and the handler consumes the prefix together with the payload.
/// Every payload byte is recorded in `payload_bytes`, in arrival order,
/// and `frames_handled` counts the invocations (saturating).
pub struct LengthPrefixedDecoder {
    pub frames_handled: usize,
    pub payload_bytes: Vec<u8>,
}

impl LengthPrefixedDecoder {
    /// A fresh length-prefixed decoder.
    pub fn new() -> (d: Self)
        ensures
            d.frames_handled == 0,
            d.payload_bytes@ == Seq::<u8>::empty(),
    {
        LengthPrefixedDecoder { frames_handled: 0, payload_bytes: Vec::new() }
    }
}

impl FrameDecoder for LengthPrefixedDecoder {
    open spec fn ready(&self, first: u8, count: nat) -> bool {
        count >= 1 + first as nat
    }

    open spec fn frame_len(&self, s: Seq<u8>) -> nat {
        1 + s[0] as nat
    }

    fn can_handle(&self, first: u8, count: usize) -> (r: bool) {
        count >= 1 + first as usize
    }

    fn handle(&mut self, acc: &mut FixedAccumulator) {
        let len_byte = acc.byte_at(0);
        let total = 1 + len_byte as usize;
        let mut i: usize = 1;
        while i < total
            invariant
                1 <= i <= total,
                *acc == *old(acc),
                acc.wf(),
                total == 1 + acc.contents()[0],
                total <= acc.contents().len(),
            decreases total - i,
        {
            let b = acc.byte_at(i);
            self.payload_bytes.push(b);
            i += 1;
        }
        acc.consume_front(total);
        if self.frames_handled < usize::MAX {
            self.frames_handled = self.frames_handled + 1;
        }
    }
}

} // verus!
