//! Accumulating the end user's STDIN.
//!
//! STDIN is read 128 bytes at a time. A long input (a paste, say) fills whole buffers; the
//! bytes are accumulated until a short read, so that the parsed event that ends the input is
//! handed all of its bytes.
use vstd::prelude::*;

verus! {

/// The size of the buffer that STDIN is read into.
pub const STDIN_BUFFER_SIZE: usize = 128;

/// The bytes read from STDIN since the last parsed event, as far as they belong together.
pub struct StdinAccumulator {
    /// The bytes accumulated so far.
    pub accumulated: Vec<u8>,
    /// Whether a long input is being accumulated.
    pub is_accumulating: bool,
}

impl StdinAccumulator {
    /// Nothing accumulated.
    pub fn new() -> (res: Self)
        ensures
            res.accumulated@.len() == 0,
            !res.is_accumulating,
    {
        StdinAccumulator { accumulated: Vec::new(), is_accumulating: false }
    }

    /// Take in one read of `size` bytes into the whole buffer. A full buffer starts (or
    /// restarts) accumulation with itself; a short read ends it, appended to what was
    /// accumulated, or stands alone. Returns whether the parser should wait for more bytes.
    pub fn receive(&mut self, buffer: &[u8; 128], size: usize) -> (wait_for_more: bool)
        ensures
            size < 128 && old(self).is_accumulating ==> final(self).accumulated@ == old(
                self,
            ).accumulated@ + buffer@,
            size < 128 && !old(self).is_accumulating ==> final(self).accumulated@ == buffer@,
            size >= 128 ==> final(self).accumulated@ == buffer@,
            final(self).is_accumulating == (old(self).is_accumulating || size >= 128),
            wait_for_more == final(self).is_accumulating,
    {
        let mut fresh: Vec<u8> = Vec::new();
        let mut i: usize = 0;
        while i < 128
            invariant
                0 <= i <= 128,
                buffer@.len() == 128,
                self.is_accumulating == old(self).is_accumulating,
                self.accumulated@ == old(self).accumulated@,
                fresh@ == buffer@.take(i as int),
            decreases 128 - i,
        {
            fresh.push(buffer[i]);
            i = i + 1;
            assert(fresh@ =~= buffer@.take(i as int));
        }
        assert(buffer@.take(128) =~= buffer@);
        if size < 128 {
            if self.is_accumulating {
                let mut j: usize = 0;
                let ghost start = self.accumulated@;
                while j < fresh.len()
                    invariant
                        self.is_accumulating == old(self).is_accumulating,
                        0 <= j <= fresh@.len(),
                        self.accumulated@ == start + fresh@.take(j as int),
                    decreases fresh@.len() - j,
                {
                    self.accumulated.push(fresh[j]);
                    j = j + 1;
                    assert(self.accumulated@ =~= start + fresh@.take(j as int));
                }
                assert(fresh@.take(j as int) =~= fresh@);
            } else {
                self.accumulated = fresh;
            }
        } else {
            self.is_accumulating = true;
            self.accumulated = fresh;
        }
        self.is_accumulating
    }

    /// The parser found an event: it gets the accumulated bytes, and accumulation ends.
    pub fn event_parsed(&mut self) -> (bytes: Vec<u8>)
        ensures
            bytes@ == old(self).accumulated@,
            final(self).accumulated@ == old(self).accumulated@,
            !final(self).is_accumulating,
    {
        self.is_accumulating = false;
        self.accumulated.clone()
    }
}

} // verus!
